use vstd::prelude::*;

use crate::allocator::{
    allocate, granted_analog, granted_inputs, granted_outputs, granted_pwm, Allocation, PinConfig,
};
use crate::bridge::{
    batch_fits, command_effect, read_answer, read_pins_handler, write_pins_handler, CommandError,
    PinReadRequest, PinReadResponse, PinRequest, PinWriteResponse,
};
use crate::session::{
    next_action, next_state, session_effect, Session, SessionAction, SessionEvent, SessionState,
};
use crate::store::{initial_slots, PinStateStore};
use crate::telemetry::{analog_payload, digital_payload};

verus! {

/// The service as a whole: the pins each role holds, the state store they
/// share, and the wireless session. The network endpoints and the session
/// both act on the one store owned here.
pub struct Application {
    pub allocation: Allocation,
    pub store: PinStateStore,
    pub session: Session,
}

impl Application {
    /// Well-formed: the allocation is exclusive, the store has one slot per
    /// pin, and the telemetry fits its characteristics.
    pub open spec fn wf(&self) -> bool {
        &&& self.allocation.wf()
        &&& self.store.wf()
        &&& self.session.wf()
    }

    /// Allocates the pins of `cfg`, creates their slots and starts the
    /// session advertising.
    pub fn new(cfg: &PinConfig) -> (r: Self)
        ensures
            r.allocation.digital_outputs@ == granted_outputs(cfg),
            r.allocation.digital_inputs@ == granted_inputs(cfg),
            r.allocation.pwm_outputs@ == granted_pwm(cfg),
            r.allocation.analog_inputs@ == granted_analog(cfg),
            r.store@ == initial_slots(&r.allocation),
            r.session.state == SessionState::Advertising,
            r.session.digital_pins@ == r.allocation.digital_outputs@ + r.allocation.pwm_outputs@,
            r.session.analog_pins@ == r.allocation.analog_inputs@,
            r.wf(),
    {
        let allocation = allocate(cfg);
        let store = PinStateStore::new(&allocation);
        let session = Session::new(&allocation);
        Application { allocation, store, session }
    }

    /// The network write endpoint on the shared store.
    pub fn write_pins(&mut self, request: &PinRequest) -> (r: Result<PinWriteResponse, CommandError>)
        requires
            old(self).wf(),
        ensures
            r is Ok <==> batch_fits(request.pin_writes@.len()),
            r is Ok ==> r == Ok::<PinWriteResponse, CommandError>(PinWriteResponse { success: true }),
            r is Err ==> r == Err::<PinWriteResponse, CommandError>(CommandError::TooManyWrites),
            final(self).store@ == command_effect(old(self).store@, request.pin_writes@),
            final(self).allocation == old(self).allocation,
            final(self).session == old(self).session,
            final(self).wf(),
    {
        write_pins_handler(&mut self.store, request)
    }

    /// The network read endpoint on the shared store.
    pub fn read_pins(&self, request: &PinReadRequest) -> (r: PinReadResponse)
        ensures
            r.pin_reads@ == read_answer(self.store@, request.pin_reads@),
            r.success,
    {
        read_pins_handler(&self.store, request)
    }

    /// Feeds one wireless link event to the session.
    pub fn on_session_event(&mut self, event: SessionEvent) -> (r: SessionAction)
        requires
            old(self).wf(),
        ensures
            final(self).session.state == next_state(old(self).session.state, &event),
            final(self).session.digital_pins@ == old(self).session.digital_pins@,
            final(self).session.analog_pins@ == old(self).session.analog_pins@,
            r == next_action(old(self).session.state, &event),
            final(self).store@ == session_effect(
                old(self).session.state,
                &event,
                old(self).store@,
            ),
            final(self).allocation == old(self).allocation,
            final(self).wf(),
    {
        self.session.step(&mut self.store, event)
    }

    /// The telemetry values to push now: digital snapshot, analog snapshot.
    pub fn telemetry(&self) -> (r: (Vec<u8>, Vec<u8>))
        requires
            self.wf(),
        ensures
            r.0@ == digital_payload(self.store@, self.session.digital_pins@),
            r.1@ == analog_payload(self.store@, self.session.analog_pins@),
    {
        self.session.telemetry(&self.store)
    }
}

} // verus!
