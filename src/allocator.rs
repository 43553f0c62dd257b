use vstd::prelude::*;

use crate::roles::{pin_supports_role, supports, PinRole};

verus! {

impl Allocation {
    /// Every active pin, role by role in serving order.
    pub open spec fn active_pins(&self) -> Seq<u8> {
        self.digital_outputs@ + self.digital_inputs@ + self.pwm_outputs@ + self.analog_inputs@
    }

    /// Well-formed: each pin is active in at most one role, once.
    pub open spec fn wf(&self) -> bool {
        self.active_pins().no_duplicates()
    }
}

/// The start-up configuration: the device name shown over the wireless
/// link and, for each role, the pin numbers requested for it, in order.
pub struct PinConfig {
    pub device_name: String,
    pub digital_outputs: Vec<u8>,
    pub digital_inputs: Vec<u8>,
    pub pwm_outputs: Vec<u8>,
    pub analog_inputs: Vec<u8>,
}

/// The pins that each role actually holds after allocation, in the order
/// they were granted.
pub struct Allocation {
    pub digital_outputs: Vec<u8>,
    pub digital_inputs: Vec<u8>,
    pub pwm_outputs: Vec<u8>,
    pub analog_inputs: Vec<u8>,
}

/// The pins that `role` is granted from the requests `req` when the pins in
/// `taken` are already claimed: a request is granted when the board can wire
/// the pin for the role and nobody holds it yet; it then becomes taken.
pub open spec fn claim(req: Seq<u8>, role: PinRole, taken: Set<u8>) -> Seq<u8>
    decreases req.len(),
{
    if req.len() == 0 {
        Seq::empty()
    } else if supports(role, req[0]) && !taken.contains(req[0]) {
        seq![req[0]] + claim(req.drop_first(), role, taken.insert(req[0]))
    } else {
        claim(req.drop_first(), role, taken)
    }
}

/// The pins that are claimed once `role` has processed the requests `req`,
/// starting from `taken`.
pub open spec fn taken_after(req: Seq<u8>, role: PinRole, taken: Set<u8>) -> Set<u8>
    decreases req.len(),
{
    if req.len() == 0 {
        taken
    } else if supports(role, req[0]) && !taken.contains(req[0]) {
        taken_after(req.drop_first(), role, taken.insert(req[0]))
    } else {
        taken_after(req.drop_first(), role, taken)
    }
}

/// Pins claimed once the digital outputs have been served.
pub open spec fn taken_by_outputs(cfg: &PinConfig) -> Set<u8> {
    taken_after(cfg.digital_outputs@, PinRole::DigitalOutput, Set::empty())
}

/// Pins claimed once the digital inputs have been served.
pub open spec fn taken_by_inputs(cfg: &PinConfig) -> Set<u8> {
    taken_after(cfg.digital_inputs@, PinRole::DigitalInput, taken_by_outputs(cfg))
}

/// Pins claimed once the PWM outputs have been served.
pub open spec fn taken_by_pwm(cfg: &PinConfig) -> Set<u8> {
    taken_after(cfg.pwm_outputs@, PinRole::PwmOutput, taken_by_inputs(cfg))
}

/// Digital output pins granted by `cfg` (served first).
pub open spec fn granted_outputs(cfg: &PinConfig) -> Seq<u8> {
    claim(cfg.digital_outputs@, PinRole::DigitalOutput, Set::empty())
}

/// Digital input pins granted by `cfg` (served second).
pub open spec fn granted_inputs(cfg: &PinConfig) -> Seq<u8> {
    claim(cfg.digital_inputs@, PinRole::DigitalInput, taken_by_outputs(cfg))
}

/// PWM output pins granted by `cfg` (served third).
pub open spec fn granted_pwm(cfg: &PinConfig) -> Seq<u8> {
    claim(cfg.pwm_outputs@, PinRole::PwmOutput, taken_by_inputs(cfg))
}

/// Analog input pins granted by `cfg` (served last).
pub open spec fn granted_analog(cfg: &PinConfig) -> Seq<u8> {
    claim(cfg.analog_inputs@, PinRole::AnalogInput, taken_by_pwm(cfg))
}

/// The set of pins marked in a claim table indexed by pin number.
pub open spec fn marked(table: Seq<bool>) -> Set<u8> {
    Set::new(|p: u8| table[p as int])
}

/// What serving one role's requests does: the claimed set grows by exactly
/// the pins granted; each granted pin was requested, can be wired for the
/// role and was free; no pin is granted twice; and every requested pin that
/// the role can use and that was free is granted.
pub proof fn lemma_claim(req: Seq<u8>, role: PinRole, taken: Set<u8>)
    ensures
        forall|x: u8|
            #[trigger] taken_after(req, role, taken).contains(x) <==> (taken.contains(x) || claim(
                req,
                role,
                taken,
            ).contains(x)),
        forall|x: u8| #[trigger]
            claim(req, role, taken).contains(x) ==> supports(role, x) && !taken.contains(x)
                && req.contains(x),
        claim(req, role, taken).no_duplicates(),
        forall|x: u8|
            #[trigger] req.contains(x) && supports(role, x) && !taken.contains(x) ==> claim(
                req,
                role,
                taken,
            ).contains(x),
    decreases req.len(),
{
    if req.len() > 0 {
        let p = req[0];
        let tail = req.drop_first();
        assert forall|x: u8| #[trigger] req.contains(x) implies x == p || tail.contains(x) by {
            let i = choose|i: int| 0 <= i < req.len() && req[i] == x;
            if i > 0 {
                assert(tail[i - 1] == x);
            }
        }
        assert forall|x: u8| #[trigger] tail.contains(x) implies req.contains(x) by {
            let i = choose|i: int| 0 <= i < tail.len() && tail[i] == x;
            assert(req[i + 1] == x);
        }
        assert(req[0] == p);
        if supports(role, p) && !taken.contains(p) {
            let t2 = taken.insert(p);
            lemma_claim(tail, role, t2);
            let rest = claim(tail, role, t2);
            let all = seq![p] + rest;
            assert(claim(req, role, taken) == all);
            assert forall|x: u8| #[trigger] all.contains(x) <==> (x == p || rest.contains(x)) by {
                if all.contains(x) {
                    let i = choose|i: int| 0 <= i < all.len() && all[i] == x;
                    if i > 0 {
                        assert(rest[i - 1] == x);
                    }
                }
                if rest.contains(x) {
                    let i = choose|i: int| 0 <= i < rest.len() && rest[i] == x;
                    assert(all[i + 1] == x);
                }
                if x == p {
                    assert(all[0] == x);
                }
            }
            assert forall|i: int, j: int|
                0 <= i < all.len() && 0 <= j < all.len() && i != j implies all[i] != all[j] by {
                if i > 0 && j > 0 {
                    assert(all[i] == rest[i - 1]);
                    assert(all[j] == rest[j - 1]);
                } else if i == 0 {
                    assert(rest.contains(all[j]));
                } else {
                    assert(rest.contains(all[i]));
                }
            }
            assert(taken_after(req, role, taken) == taken_after(tail, role, t2));
        } else {
            lemma_claim(tail, role, taken);
            assert(taken_after(req, role, taken) == taken_after(tail, role, taken));
            assert(claim(req, role, taken) == claim(tail, role, taken));
        }
    } else {
        assert(claim(req, role, taken) =~= Seq::<u8>::empty());
    }
}

/// A role holds at most as many pins as the board can wire for it.
proof fn lemma_granted_bound(s: Seq<u8>, role: PinRole)
    requires
        s.no_duplicates(),
        forall|x: u8| #[trigger] s.contains(x) ==> supports(role, x),
    ensures
        role == PinRole::AnalogInput ==> s.len() <= 2,
        role != PinRole::AnalogInput ==> s.len() <= 4,
{
    broadcast use vstd::set::group_set_axioms;

    let board = if role == PinRole::AnalogInput {
        Set::<u8>::empty().insert(32).insert(35)
    } else {
        Set::<u8>::empty().insert(14).insert(25).insert(26).insert(33)
    };
    assert(board.len() == if role == PinRole::AnalogInput { 2nat } else { 4nat });
    s.unique_seq_to_set();
    assert(s.to_set().subset_of(board));
    vstd::set_lib::lemma_len_subset(s.to_set(), board);
}

/// Allocation exclusivity: no pin is granted to two roles, no role holds a
/// pin twice, every granted pin was requested for that role and can be wired
/// for it, and the serving order decides who wins a pin requested by several
/// roles: a requested, wirable pin goes to that role unless an earlier role
/// already holds it.
pub proof fn lemma_allocation_exclusive(cfg: &PinConfig)
    ensures
        granted_outputs(cfg).no_duplicates(),
        granted_inputs(cfg).no_duplicates(),
        granted_pwm(cfg).no_duplicates(),
        granted_analog(cfg).no_duplicates(),
        forall|x: u8|
            #![trigger granted_outputs(cfg).contains(x)]
            #![trigger granted_inputs(cfg).contains(x)]
            #![trigger granted_pwm(cfg).contains(x)]
            #![trigger granted_analog(cfg).contains(x)]
            {
                &&& granted_outputs(cfg).contains(x) ==> !granted_inputs(cfg).contains(x)
                    && !granted_pwm(cfg).contains(x) && !granted_analog(cfg).contains(x)
                &&& granted_inputs(cfg).contains(x) ==> !granted_pwm(cfg).contains(x)
                    && !granted_analog(cfg).contains(x)
                &&& granted_pwm(cfg).contains(x) ==> !granted_analog(cfg).contains(x)
            },
        forall|x: u8| #[trigger]
            granted_outputs(cfg).contains(x) ==> cfg.digital_outputs@.contains(x) && supports(
                PinRole::DigitalOutput,
                x,
            ),
        forall|x: u8| #[trigger]
            granted_inputs(cfg).contains(x) ==> cfg.digital_inputs@.contains(x) && supports(
                PinRole::DigitalInput,
                x,
            ),
        forall|x: u8| #[trigger]
            granted_pwm(cfg).contains(x) ==> cfg.pwm_outputs@.contains(x) && supports(
                PinRole::PwmOutput,
                x,
            ),
        forall|x: u8| #[trigger]
            granted_analog(cfg).contains(x) ==> cfg.analog_inputs@.contains(x) && supports(
                PinRole::AnalogInput,
                x,
            ),
        forall|x: u8| #[trigger]
            cfg.digital_outputs@.contains(x) && supports(PinRole::DigitalOutput, x)
                ==> granted_outputs(cfg).contains(x),
        forall|x: u8| #[trigger]
            cfg.digital_inputs@.contains(x) && supports(PinRole::DigitalInput, x)
                && !granted_outputs(cfg).contains(x) ==> granted_inputs(cfg).contains(x),
        forall|x: u8| #[trigger]
            cfg.pwm_outputs@.contains(x) && supports(PinRole::PwmOutput, x)
                && !granted_outputs(cfg).contains(x) && !granted_inputs(cfg).contains(x)
                ==> granted_pwm(cfg).contains(x),
        forall|x: u8| #[trigger]
            cfg.analog_inputs@.contains(x) && supports(PinRole::AnalogInput, x)
                && !granted_outputs(cfg).contains(x) && !granted_inputs(cfg).contains(x)
                && !granted_pwm(cfg).contains(x) ==> granted_analog(cfg).contains(x),
{
    lemma_claim(cfg.digital_outputs@, PinRole::DigitalOutput, Set::empty());
    lemma_claim(cfg.digital_inputs@, PinRole::DigitalInput, taken_by_outputs(cfg));
    lemma_claim(cfg.pwm_outputs@, PinRole::PwmOutput, taken_by_inputs(cfg));
    lemma_claim(cfg.analog_inputs@, PinRole::AnalogInput, taken_by_pwm(cfg));
}

/// Serves the requests `req` of `role` against the claim table `claimed`,
/// in order, and returns the pins granted.
fn claim_pins(req: &Vec<u8>, role: PinRole, claimed: &mut Vec<bool>) -> (out: Vec<u8>)
    requires
        old(claimed)@.len() == 256,
    ensures
        final(claimed)@.len() == 256,
        out@ == claim(req@, role, marked(old(claimed)@)),
        marked(final(claimed)@) == taken_after(req@, role, marked(old(claimed)@)),
{
    let ghost t0 = marked(claimed@);
    let n = req.len();
    let mut out: Vec<u8> = Vec::new();
    let mut i: usize = 0;
    assert(req@.subrange(0, n as int) =~= req@);
    while i < n
        invariant
            n == req@.len(),
            0 <= i <= n,
            claimed@.len() == 256,
            out@ + claim(req@.subrange(i as int, n as int), role, marked(claimed@)) == claim(
                req@,
                role,
                t0,
            ),
            taken_after(req@.subrange(i as int, n as int), role, marked(claimed@))
                == taken_after(req@, role, t0),
        decreases n - i,
    {
        let ghost rest = req@.subrange(i as int, n as int);
        let ghost t = marked(claimed@);
        assert(rest.drop_first() =~= req@.subrange(i + 1, n as int));
        let p = req[i];
        if pin_supports_role(role, p) && !claimed[p as usize] {
            claimed.set(p as usize, true);
            assert(marked(claimed@) =~= t.insert(p));
            assert(out@.push(p) + claim(rest.drop_first(), role, t.insert(p)) =~= out@ + (seq![p]
                + claim(rest.drop_first(), role, t.insert(p))));
            out.push(p);
        }
        i = i + 1;
    }
    assert(req@.subrange(n as int, n as int) =~= Seq::<u8>::empty());
    assert(out@ + Seq::<u8>::empty() =~= out@);
    out
}

/// Partitions the requested pins among the roles. Roles are served in the
/// fixed order digital outputs, digital inputs, PWM outputs, analog inputs;
/// a pin goes to the first role that requests it and that the board can
/// wire it for, and is silently dropped from every later request.
pub fn allocate(cfg: &PinConfig) -> (a: Allocation)
    ensures
        a.digital_outputs@ == granted_outputs(cfg),
        a.digital_inputs@ == granted_inputs(cfg),
        a.pwm_outputs@ == granted_pwm(cfg),
        a.analog_inputs@ == granted_analog(cfg),
        a.wf(),
        a.digital_outputs@.len() <= 4,
        a.digital_inputs@.len() <= 4,
        a.pwm_outputs@.len() <= 4,
        a.analog_inputs@.len() <= 2,
{
    let mut claimed: Vec<bool> = Vec::new();
    let mut k: usize = 0;
    while k < 256
        invariant
            0 <= k <= 256,
            claimed@.len() == k,
            forall|j: int| 0 <= j < k ==> !claimed@[j],
        decreases 256 - k,
    {
        claimed.push(false);
        k = k + 1;
    }
    assert(marked(claimed@) =~= Set::<u8>::empty());
    let digital_outputs = claim_pins(&cfg.digital_outputs, PinRole::DigitalOutput, &mut claimed);
    let digital_inputs = claim_pins(&cfg.digital_inputs, PinRole::DigitalInput, &mut claimed);
    let pwm_outputs = claim_pins(&cfg.pwm_outputs, PinRole::PwmOutput, &mut claimed);
    let analog_inputs = claim_pins(&cfg.analog_inputs, PinRole::AnalogInput, &mut claimed);
    let a = Allocation { digital_outputs, digital_inputs, pwm_outputs, analog_inputs };
    proof {
        lemma_allocation_exclusive(cfg);
        lemma_granted_bound(a.digital_outputs@, PinRole::DigitalOutput);
        lemma_granted_bound(a.digital_inputs@, PinRole::DigitalInput);
        lemma_granted_bound(a.pwm_outputs@, PinRole::PwmOutput);
        lemma_granted_bound(a.analog_inputs@, PinRole::AnalogInput);
        let s1 = a.digital_outputs@ + a.digital_inputs@;
        let s2 = s1 + a.pwm_outputs@;
        assert forall|i: int, j: int|
            0 <= i < a.digital_outputs@.len() && 0 <= j < a.digital_inputs@.len() implies a.digital_outputs@[i]
            != a.digital_inputs@[j] by {
            assert(a.digital_outputs@.contains(a.digital_outputs@[i]));
            assert(a.digital_inputs@.contains(a.digital_inputs@[j]));
        }
        vstd::seq_lib::lemma_no_dup_in_concat(a.digital_outputs@, a.digital_inputs@);
        assert forall|x: u8| #[trigger] s1.contains(x) implies a.digital_outputs@.contains(x)
            || a.digital_inputs@.contains(x) by {
            let i = choose|i: int| 0 <= i < s1.len() && s1[i] == x;
            if i < a.digital_outputs@.len() {
                assert(a.digital_outputs@[i] == x);
            } else {
                assert(a.digital_inputs@[i - a.digital_outputs@.len()] == x);
            }
        }
        assert forall|i: int, j: int| 0 <= i < s1.len() && 0 <= j < a.pwm_outputs@.len() implies s1[i]
            != a.pwm_outputs@[j] by {
            assert(s1.contains(s1[i]));
            assert(a.pwm_outputs@.contains(a.pwm_outputs@[j]));
        }
        vstd::seq_lib::lemma_no_dup_in_concat(s1, a.pwm_outputs@);
        assert forall|x: u8| #[trigger] s2.contains(x) implies s1.contains(x)
            || a.pwm_outputs@.contains(x) by {
            let i = choose|i: int| 0 <= i < s2.len() && s2[i] == x;
            if i < s1.len() {
                assert(s1[i] == x);
            } else {
                assert(a.pwm_outputs@[i - s1.len()] == x);
            }
        }
        assert forall|i: int, j: int|
            0 <= i < s2.len() && 0 <= j < a.analog_inputs@.len() implies s2[i]
            != a.analog_inputs@[j] by {
            assert(s2.contains(s2[i]));
            assert(a.analog_inputs@.contains(a.analog_inputs@[j]));
        }
        vstd::seq_lib::lemma_no_dup_in_concat(s2, a.analog_inputs@);
    }
    a
}

} // verus!
