use vstd::prelude::*;

use crate::allocator::Allocation;
use crate::roles::PinRole;

verus! {

/// One state slot: the value shared between the task that produces it and
/// the task that consumes it, for one allocated pin.
#[derive(Clone, Copy, Debug, PartialEq, Eq, Structural)]
pub struct PinSlot {
    pub pin: u8,
    pub role: PinRole,
    pub value: u32,
}

/// The kind of component that writes into a slot.
#[derive(Clone, Copy, Debug, PartialEq, Eq, Structural)]
pub enum SlotWriter {
    /// A remote command (wireless characteristic or network endpoint).
    Command,
    /// The digital input sampler.
    InputSampler,
    /// The analog sampler.
    AnalogSampler,
}

/// Each slot has exactly one kind of writer, fixed by the pin's role.
pub open spec fn writes_to(writer: SlotWriter, role: PinRole) -> bool {
    match writer {
        SlotWriter::Command => role == PinRole::DigitalOutput || role == PinRole::PwmOutput,
        SlotWriter::InputSampler => role == PinRole::DigitalInput,
        SlotWriter::AnalogSampler => role == PinRole::AnalogInput,
    }
}

/// Single writer per slot: every role has exactly one kind of writer.
pub proof fn lemma_one_writer_per_role(role: PinRole, w1: SlotWriter, w2: SlotWriter)
    ensures
        writes_to(w1, role) && writes_to(w2, role) ==> w1 == w2,
        exists|w: SlotWriter| writes_to(w, role),
{
    match role {
        PinRole::DigitalOutput | PinRole::PwmOutput => assert(writes_to(SlotWriter::Command, role)),
        PinRole::DigitalInput => assert(writes_to(SlotWriter::InputSampler, role)),
        PinRole::AnalogInput => assert(writes_to(SlotWriter::AnalogSampler, role)),
    }
}

/// Whether `writer` may write the slots of a pin with `role`.
pub fn writer_owns_role(writer: SlotWriter, role: PinRole) -> (r: bool)
    ensures
        r == writes_to(writer, role),
{
    match writer {
        SlotWriter::Command => match role {
            PinRole::DigitalOutput | PinRole::PwmOutput => true,
            _ => false,
        },
        SlotWriter::InputSampler => match role {
            PinRole::DigitalInput => true,
            _ => false,
        },
        SlotWriter::AnalogSampler => match role {
            PinRole::AnalogInput => true,
            _ => false,
        },
    }
}

/// The value of `pin` in `slots`: that of the first slot for it, `0` when
/// there is none.
pub open spec fn value_of(slots: Seq<PinSlot>, pin: u8) -> u32
    decreases slots.len(),
{
    if slots.len() == 0 {
        0
    } else if slots[0].pin == pin {
        slots[0].value
    } else {
        value_of(slots.drop_first(), pin)
    }
}

/// The role of `pin` in `slots`, if it has a slot.
pub open spec fn role_of(slots: Seq<PinSlot>, pin: u8) -> Option<PinRole>
    decreases slots.len(),
{
    if slots.len() == 0 {
        None
    } else if slots[0].pin == pin {
        Some(slots[0].role)
    } else {
        role_of(slots.drop_first(), pin)
    }
}

/// The slots after `writer` stores `value` for `pin`: every slot of `pin`
/// whose role `writer` owns takes the value, all others are kept.
pub open spec fn written(slots: Seq<PinSlot>, pin: u8, writer: SlotWriter, value: u32) -> Seq<
    PinSlot,
> {
    slots.map_values(
        |s: PinSlot|
            if s.pin == pin && writes_to(writer, s.role) {
                PinSlot { value, ..s }
            } else {
                s
            },
    )
}

/// Fresh slots, holding `0`, for `pins` in `role`.
pub open spec fn fresh_slots(pins: Seq<u8>, role: PinRole) -> Seq<PinSlot> {
    pins.map_values(|p: u8| PinSlot { pin: p, role, value: 0 })
}

/// The slots created for an allocation: one per active pin, holding `0`,
/// role by role in serving order.
pub open spec fn initial_slots(a: &Allocation) -> Seq<PinSlot> {
    fresh_slots(a.digital_outputs@, PinRole::DigitalOutput) + fresh_slots(
        a.digital_inputs@,
        PinRole::DigitalInput,
    ) + fresh_slots(a.pwm_outputs@, PinRole::PwmOutput) + fresh_slots(
        a.analog_inputs@,
        PinRole::AnalogInput,
    )
}

/// Appends fresh slots for `pins` in `role`.
fn push_fresh(slots: &mut Vec<PinSlot>, pins: &Vec<u8>, role: PinRole)
    ensures
        final(slots)@ == old(slots)@ + fresh_slots(pins@, role),
{
    let ghost start = slots@;
    let n = pins.len();
    let mut i: usize = 0;
    while i < n
        invariant
            n == pins@.len(),
            0 <= i <= n,
            slots@ == start + fresh_slots(pins@.subrange(0, i as int), role),
        decreases n - i,
    {
        slots.push(PinSlot { pin: pins[i], role, value: 0 });
        i = i + 1;
        assert(fresh_slots(pins@.subrange(0, i as int), role) =~= fresh_slots(
            pins@.subrange(0, i - 1),
            role,
        ).push(PinSlot { pin: pins@[i - 1], role, value: 0 }));
    }
    assert(pins@.subrange(0, n as int) =~= pins@);
}

/// A write leaves the value of every other pin as it was.
pub proof fn lemma_write_keeps_others(
    slots: Seq<PinSlot>,
    pin: u8,
    writer: SlotWriter,
    value: u32,
    other: u8,
)
    requires
        other != pin,
    ensures
        value_of(written(slots, pin, writer, value), other) == value_of(slots, other),
        role_of(written(slots, pin, writer, value), other) == role_of(slots, other),
    decreases slots.len(),
{
    if slots.len() > 0 {
        assert(written(slots, pin, writer, value).drop_first() =~= written(
            slots.drop_first(),
            pin,
            writer,
            value,
        ));
        lemma_write_keeps_others(slots.drop_first(), pin, writer, value, other);
    }
}

/// A write by the pin's own writer is read back exactly.
pub proof fn lemma_write_then_read(slots: Seq<PinSlot>, pin: u8, writer: SlotWriter, value: u32)
    requires
        role_of(slots, pin) is Some,
        writes_to(writer, role_of(slots, pin)->Some_0),
    ensures
        value_of(written(slots, pin, writer, value), pin) == value,
    decreases slots.len(),
{
    if slots.len() > 0 && slots[0].pin != pin {
        assert(written(slots, pin, writer, value).drop_first() =~= written(
            slots.drop_first(),
            pin,
            writer,
            value,
        ));
        lemma_write_then_read(slots.drop_first(), pin, writer, value);
    }
}

/// Unknown-pin safety: a pin without a slot reads as `0`, and any write to
/// it leaves every slot as it was.
pub proof fn lemma_unknown_pin(slots: Seq<PinSlot>, pin: u8, writer: SlotWriter, value: u32)
    requires
        role_of(slots, pin) is None,
    ensures
        value_of(slots, pin) == 0,
        written(slots, pin, writer, value) == slots,
    decreases slots.len(),
{
    if slots.len() > 0 {
        lemma_unknown_pin(slots.drop_first(), pin, writer, value);
        assert(written(slots.drop_first(), pin, writer, value) == slots.drop_first());
        assert forall|i: int| 0 <= i < slots.len() implies written(slots, pin, writer, value)[i]
            == slots[i] by {
            if i > 0 {
                assert(slots[i] == slots.drop_first()[i - 1]);
                assert(written(slots.drop_first(), pin, writer, value)[i - 1] == slots.drop_first()[i
                    - 1]);
            }
        }
        assert(written(slots, pin, writer, value) =~= slots);
    }
}

/// No pin has two slots.
pub open spec fn pins_unique(slots: Seq<PinSlot>) -> bool {
    forall|i: int, j: int|
        0 <= i < slots.len() && 0 <= j < slots.len() && i != j ==> slots[i].pin != slots[j].pin
}

/// The shared state store: one slot per allocated pin, created once and
/// never resized. Pins without a slot read as `0` and ignore writes.
pub struct PinStateStore {
    slots: Vec<PinSlot>,
}

impl View for PinStateStore {
    type V = Seq<PinSlot>;

    closed spec fn view(&self) -> Seq<PinSlot> {
        self.slots@
    }
}

impl PinStateStore {
    /// Well-formed: no pin has two slots.
    pub open spec fn wf(&self) -> bool {
        pins_unique(self@)
    }

    /// The store for an allocation: one slot per active pin, holding `0`.
    pub fn new(a: &Allocation) -> (r: Self)
        requires
            a.wf(),
        ensures
            r@ == initial_slots(a),
            r.wf(),
    {
        let mut slots: Vec<PinSlot> = Vec::new();
        push_fresh(&mut slots, &a.digital_outputs, PinRole::DigitalOutput);
        push_fresh(&mut slots, &a.digital_inputs, PinRole::DigitalInput);
        push_fresh(&mut slots, &a.pwm_outputs, PinRole::PwmOutput);
        push_fresh(&mut slots, &a.analog_inputs, PinRole::AnalogInput);
        proof {
            let pins = a.active_pins();
            assert(slots@ =~= initial_slots(a));
            assert(slots@.len() == pins.len());
            assert forall|i: int| 0 <= i < slots@.len() implies slots@[i].pin == pins[i] by {}
            assert(pins_unique(slots@)) by {
                assert forall|i: int, j: int|
                    0 <= i < slots@.len() && 0 <= j < slots@.len() && i != j implies slots@[i].pin
                    != slots@[j].pin by {
                    assert(slots@[i].pin == pins[i]);
                    assert(slots@[j].pin == pins[j]);
                }
            }
        }
        PinStateStore { slots }
    }

    /// The slots, in allocation order.
    pub fn slots(&self) -> (r: &Vec<PinSlot>)
        ensures
            r@ == self@,
    {
        &self.slots
    }

    /// The value stored for `pin`; `0` when `pin` has no slot.
    pub fn read(&self, pin: u8) -> (r: u32)
        ensures
            r == value_of(self@, pin),
    {
        let n = self.slots.len();
        let mut i: usize = 0;
        assert(self@.subrange(0, n as int) =~= self@);
        while i < n
            invariant
                n == self@.len(),
                0 <= i <= n,
                value_of(self@, pin) == value_of(self@.subrange(i as int, n as int), pin),
            decreases n - i,
        {
            let ghost rest = self@.subrange(i as int, n as int);
            assert(rest.drop_first() =~= self@.subrange(i + 1, n as int));
            if self.slots[i].pin == pin {
                return self.slots[i].value;
            }
            i = i + 1;
        }
        0
    }

    /// The role of `pin`, if it has a slot.
    pub fn role(&self, pin: u8) -> (r: Option<PinRole>)
        ensures
            r == role_of(self@, pin),
    {
        let n = self.slots.len();
        let mut i: usize = 0;
        assert(self@.subrange(0, n as int) =~= self@);
        while i < n
            invariant
                n == self@.len(),
                0 <= i <= n,
                role_of(self@, pin) == role_of(self@.subrange(i as int, n as int), pin),
            decreases n - i,
        {
            let ghost rest = self@.subrange(i as int, n as int);
            assert(rest.drop_first() =~= self@.subrange(i + 1, n as int));
            if self.slots[i].pin == pin {
                return Some(self.slots[i].role);
            }
            i = i + 1;
        }
        None
    }

    /// `writer` stores `value` for `pin`. A pin without a slot, or whose
    /// role `writer` does not own, is left alone: the call is then a no-op.
    pub fn write(&mut self, pin: u8, writer: SlotWriter, value: u32)
        ensures
            final(self)@ == written(old(self)@, pin, writer, value),
            old(self).wf() ==> final(self).wf(),
    {
        let ghost start = self@;
        let n = self.slots.len();
        let mut i: usize = 0;
        while i < n
            invariant
                n == self@.len(),
                n == start.len(),
                0 <= i <= n,
                forall|k: int|
                    0 <= k < i ==> self@[k] == written(start, pin, writer, value)[k],
                forall|k: int| i <= k < n ==> self@[k] == start[k],
            decreases n - i,
        {
            let s = self.slots[i];
            if s.pin == pin && writer_owns_role(writer, s.role) {
                self.slots.set(i, PinSlot { value, ..s });
            }
            i = i + 1;
        }
        assert(self@ =~= written(start, pin, writer, value));
    }
}

} // verus!
