use vstd::prelude::*;

use crate::store::{value_of, written, PinSlot, PinStateStore, SlotWriter};

verus! {

/// Most entries a command batch may hold.
pub const MAX_PIN_WRITES: usize = 8;

/// One entry of a command batch: set `pin_num`'s slot to `state`.
#[derive(Clone, Copy, Debug, PartialEq, Eq, Structural)]
pub struct PinWriteItem {
    pub pin_num: u8,
    pub state: u8,
}

/// A decoded command batch, `{"pin_writes": [...]}`.
pub struct PinRequest {
    pub pin_writes: Vec<PinWriteItem>,
}

/// Why a command batch was refused.
#[derive(Clone, Copy, Debug, PartialEq, Eq, Structural)]
pub enum CommandError {
    /// The batch holds more entries than are supported; nothing was applied.
    TooManyWrites,
}

/// The acknowledgement of an accepted command batch.
#[derive(Clone, Copy, Debug, PartialEq, Eq, Structural)]
pub struct PinWriteResponse {
    pub success: bool,
}

/// A decoded read request, `{"pin_reads": [...]}`.
pub struct PinReadRequest {
    pub pin_reads: Vec<u8>,
}

/// The value of one pin in a read response.
#[derive(Clone, Copy, Debug, PartialEq, Eq, Structural)]
pub struct PinReadItem {
    pub pin_num: u8,
    pub state: u32,
}

/// The answer to a read request.
pub struct PinReadResponse {
    pub pin_reads: Vec<PinReadItem>,
    pub success: bool,
}

/// The slots after the entries `ws` are applied as commands, in order.
pub open spec fn applied(slots: Seq<PinSlot>, ws: Seq<PinWriteItem>) -> Seq<PinSlot>
    decreases ws.len(),
{
    if ws.len() == 0 {
        slots
    } else {
        written(
            applied(slots, ws.drop_last()),
            ws.last().pin_num,
            SlotWriter::Command,
            ws.last().state as u32,
        )
    }
}

/// Whether a batch of `n` entries is within the supported size.
pub open spec fn batch_fits(n: nat) -> bool {
    n <= MAX_PIN_WRITES
}

/// What a command batch does to the slots: a batch within the supported
/// size is applied whole, a larger one not at all.
pub open spec fn command_effect(slots: Seq<PinSlot>, ws: Seq<PinWriteItem>) -> Seq<PinSlot> {
    if batch_fits(ws.len()) {
        applied(slots, ws)
    } else {
        slots
    }
}

/// What a read request answers: each requested pin with its value, `0` for
/// a pin without a slot.
pub open spec fn read_answer(slots: Seq<PinSlot>, pins: Seq<u8>) -> Seq<PinReadItem> {
    pins.map_values(|p: u8| PinReadItem { pin_num: p, state: value_of(slots, p) })
}

/// Applies a command batch to the store. A batch over the supported size
/// is refused whole. Entries for pins that are not commandable outputs
/// (unknown pins, inputs) are ignored.
pub fn apply_pin_writes(store: &mut PinStateStore, writes: &Vec<PinWriteItem>) -> (r: Result<
    (),
    CommandError,
>)
    ensures
        r is Ok <==> batch_fits(writes@.len()),
        r is Err ==> r == Err::<(), CommandError>(CommandError::TooManyWrites),
        final(store)@ == command_effect(old(store)@, writes@),
        old(store).wf() ==> final(store).wf(),
{
    let n = writes.len();
    if n > MAX_PIN_WRITES {
        return Err(CommandError::TooManyWrites);
    }
    let ghost start = store@;
    let mut i: usize = 0;
    assert(writes@.subrange(0, 0) =~= Seq::<PinWriteItem>::empty());
    while i < n
        invariant
            n == writes@.len(),
            0 <= i <= n,
            store@ == applied(start, writes@.subrange(0, i as int)),
            old(store).wf() ==> store.wf(),
            start == old(store)@,
        decreases n - i,
    {
        let w = writes[i];
        store.write(w.pin_num, SlotWriter::Command, w.state as u32);
        i = i + 1;
        assert(writes@.subrange(0, i as int).drop_last() =~= writes@.subrange(0, i - 1));
    }
    assert(writes@.subrange(0, n as int) =~= writes@);
    Ok(())
}

/// The network write endpoint: applies the batch and acknowledges it.
pub fn write_pins_handler(store: &mut PinStateStore, request: &PinRequest) -> (r: Result<
    PinWriteResponse,
    CommandError,
>)
    ensures
        r is Ok <==> batch_fits(request.pin_writes@.len()),
        r is Ok ==> r == Ok::<PinWriteResponse, CommandError>(PinWriteResponse { success: true }),
        r is Err ==> r == Err::<PinWriteResponse, CommandError>(CommandError::TooManyWrites),
        final(store)@ == command_effect(old(store)@, request.pin_writes@),
        old(store).wf() ==> final(store).wf(),
{
    match apply_pin_writes(store, &request.pin_writes) {
        Ok(()) => Ok(PinWriteResponse { success: true }),
        Err(e) => Err(e),
    }
}

/// The network read endpoint: the value of each requested pin, in order.
pub fn read_pins_handler(store: &PinStateStore, request: &PinReadRequest) -> (r: PinReadResponse)
    ensures
        r.pin_reads@ == read_answer(store@, request.pin_reads@),
        r.success,
{
    let n = request.pin_reads.len();
    let mut pin_reads: Vec<PinReadItem> = Vec::new();
    let mut i: usize = 0;
    while i < n
        invariant
            n == request.pin_reads@.len(),
            0 <= i <= n,
            pin_reads@ == read_answer(store@, request.pin_reads@.subrange(0, i as int)),
        decreases n - i,
    {
        let pin_num = request.pin_reads[i];
        let state = store.read(pin_num);
        pin_reads.push(PinReadItem { pin_num, state });
        i = i + 1;
        assert(pin_reads@ =~= read_answer(store@, request.pin_reads@.subrange(0, i as int)));
    }
    assert(request.pin_reads@.subrange(0, n as int) =~= request.pin_reads@);
    PinReadResponse { pin_reads, success: true }
}

} // verus!
