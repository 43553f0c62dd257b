use vstd::prelude::*;

use crate::store::{value_of, PinSlot, PinStateStore};

verus! {

/// Size of a telemetry characteristic value, in bytes.
pub const PAYLOAD_LEN: usize = 32;

/// Most pins a digital snapshot can carry: a count byte and two bytes each.
pub const MAX_DIGITAL_TELEMETRY_PINS: usize = 15;

/// Most pins an analog snapshot can carry: a count byte and three bytes each.
pub const MAX_ANALOG_TELEMETRY_PINS: usize = 10;

/// The second least significant byte of `value`.
pub open spec fn high_byte(value: u32) -> u8 {
    (value / 256 % 256) as u8
}

/// The least significant byte of `value`.
pub open spec fn low_byte(value: u32) -> u8 {
    (value % 256) as u8
}

/// Splits the low 16 bits of `value` into its high and low bytes.
pub fn u32_to_u8_pair(value: u32) -> (r: (u8, u8))
    ensures
        r.0 == high_byte(value),
        r.1 == low_byte(value),
        r.0 as int * 256 + r.1 as int == value as int % 65536,
{
    let high = (value / 256 % 256) as u8;
    let low = (value % 256) as u8;
    (high, low)
}

/// `(pin, value byte)` for each of `pins`, in order.
pub open spec fn pin_value_pairs(slots: Seq<PinSlot>, pins: Seq<u8>) -> Seq<u8>
    decreases pins.len(),
{
    if pins.len() == 0 {
        Seq::empty()
    } else {
        pin_value_pairs(slots, pins.drop_last()) + seq![
            pins.last(),
            low_byte(value_of(slots, pins.last())),
        ]
    }
}

/// `(pin, high byte, low byte)` for each of `pins`, in order.
pub open spec fn pin_sample_triples(slots: Seq<PinSlot>, pins: Seq<u8>) -> Seq<u8>
    decreases pins.len(),
{
    if pins.len() == 0 {
        Seq::empty()
    } else {
        pin_sample_triples(slots, pins.drop_last()) + seq![
            pins.last(),
            high_byte(value_of(slots, pins.last())),
            low_byte(value_of(slots, pins.last())),
        ]
    }
}

/// `content` followed by zero bytes up to the payload size.
pub open spec fn padded(content: Seq<u8>) -> Seq<u8> {
    content + Seq::new((32 - content.len()) as nat, |i: int| 0u8)
}

/// The digital snapshot: the pin count, then `(pin, value)` pairs.
pub open spec fn digital_payload(slots: Seq<PinSlot>, pins: Seq<u8>) -> Seq<u8> {
    padded(seq![pins.len() as u8] + pin_value_pairs(slots, pins))
}

/// The analog snapshot: the pin count, then `(pin, high, low)` triples.
pub open spec fn analog_payload(slots: Seq<PinSlot>, pins: Seq<u8>) -> Seq<u8> {
    padded(seq![pins.len() as u8] + pin_sample_triples(slots, pins))
}

/// Appends zero bytes up to the payload size.
fn pad_payload(out: &mut Vec<u8>)
    requires
        old(out)@.len() <= 32,
    ensures
        final(out)@ == padded(old(out)@),
{
    let ghost start = out@;
    while out.len() < PAYLOAD_LEN
        invariant
            start.len() <= out@.len() <= 32,
            out@.subrange(0, start.len() as int) == start,
            forall|k: int| start.len() <= k < out@.len() ==> out@[k] == 0u8,
        decreases 32 - out@.len(),
    {
        out.push(0u8);
    }
    assert(out@ =~= padded(start));
}

/// Composes the digital telemetry value for `pins` from the store.
pub fn digital_snapshot(store: &PinStateStore, pins: &Vec<u8>) -> (r: Vec<u8>)
    requires
        pins@.len() <= MAX_DIGITAL_TELEMETRY_PINS,
    ensures
        r@ == digital_payload(store@, pins@),
        r@.len() == PAYLOAD_LEN,
{
    let n = pins.len();
    let mut out: Vec<u8> = Vec::new();
    out.push(n as u8);
    let mut i: usize = 0;
    while i < n
        invariant
            n == pins@.len(),
            n <= 15,
            0 <= i <= n,
            out@ == seq![n as u8] + pin_value_pairs(store@, pins@.subrange(0, i as int)),
            out@.len() == 1 + 2 * i,
        decreases n - i,
    {
        let pin = pins[i];
        let value = store.read(pin);
        out.push(pin);
        out.push((value % 256) as u8);
        i = i + 1;
        assert(pins@.subrange(0, i as int).drop_last() =~= pins@.subrange(0, i - 1));
        assert(out@ =~= seq![n as u8] + pin_value_pairs(store@, pins@.subrange(0, i as int)));
    }
    assert(pins@.subrange(0, n as int) =~= pins@);
    pad_payload(&mut out);
    out
}

/// Composes the analog telemetry value for `pins` from the store.
pub fn analog_snapshot(store: &PinStateStore, pins: &Vec<u8>) -> (r: Vec<u8>)
    requires
        pins@.len() <= MAX_ANALOG_TELEMETRY_PINS,
    ensures
        r@ == analog_payload(store@, pins@),
        r@.len() == PAYLOAD_LEN,
{
    let n = pins.len();
    let mut out: Vec<u8> = Vec::new();
    out.push(n as u8);
    let mut i: usize = 0;
    while i < n
        invariant
            n == pins@.len(),
            n <= 10,
            0 <= i <= n,
            out@ == seq![n as u8] + pin_sample_triples(store@, pins@.subrange(0, i as int)),
            out@.len() == 1 + 3 * i,
        decreases n - i,
    {
        let pin = pins[i];
        let (high, low) = u32_to_u8_pair(store.read(pin));
        out.push(pin);
        out.push(high);
        out.push(low);
        i = i + 1;
        assert(pins@.subrange(0, i as int).drop_last() =~= pins@.subrange(0, i - 1));
        assert(out@ =~= seq![n as u8] + pin_sample_triples(store@, pins@.subrange(0, i as int)));
    }
    assert(pins@.subrange(0, n as int) =~= pins@);
    pad_payload(&mut out);
    out
}

} // verus!
