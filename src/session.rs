use vstd::prelude::*;

use crate::allocator::Allocation;
use crate::bridge::{apply_pin_writes, command_effect, read_answer, PinRequest};
use crate::store::{PinSlot, PinStateStore};
use crate::telemetry::{
    analog_payload, analog_snapshot, digital_payload, digital_snapshot,
    MAX_ANALOG_TELEMETRY_PINS, MAX_DIGITAL_TELEMETRY_PINS,
};

verus! {

/// Where the wireless session is in its lifecycle.
#[derive(Clone, Copy, Debug, PartialEq, Eq, Structural)]
pub enum SessionState {
    /// Broadcasting and waiting for a peer to connect.
    Advertising,
    /// A peer is connected: command handling and telemetry run side by side.
    Connected,
}

/// What happened on the wireless link.
pub enum SessionEvent {
    /// The advertiser accepted a connection.
    Accepted,
    /// Advertising or accepting failed at the transport.
    AdvertiseFailed,
    /// The peer disconnected.
    Disconnected,
    /// A sub-flow ended on its own: the link-quality check failed, or an
    /// attribute-protocol error could not be recovered.
    SubflowEnded,
    /// The peer read a characteristic.
    ReadRequest,
    /// The peer wrote the command characteristic; the payload as decoded,
    /// `None` when it was not valid text or not a valid command batch.
    WriteRequest(Option<PinRequest>),
    /// Any other attribute event from the peer.
    OtherRequest,
    /// The telemetry period elapsed.
    TelemetryTick,
}

/// What the link layer must do next.
#[derive(Clone, Copy, Debug, PartialEq, Eq, Structural)]
pub enum SessionAction {
    /// Start advertising (again), with the device name.
    Advertise,
    /// Run the command-handling and telemetry sub-flows on the new connection.
    Serve,
    /// Acknowledge the event just received.
    Reply,
    /// Push the current telemetry snapshots as notifications.
    Notify,
    /// Give up: a failure while advertising cannot be recovered from.
    Halt,
    /// Nothing to do.
    Ignore,
}

/// The state after `event` in `state`.
pub open spec fn next_state(state: SessionState, event: &SessionEvent) -> SessionState {
    match (state, event) {
        (SessionState::Advertising, SessionEvent::Accepted) => SessionState::Connected,
        (SessionState::Connected, SessionEvent::Disconnected) => SessionState::Advertising,
        (SessionState::Connected, SessionEvent::SubflowEnded) => SessionState::Advertising,
        _ => state,
    }
}

/// The action that `event` in `state` calls for. Every attribute event of
/// a connected peer is acknowledged, whatever its payload.
pub open spec fn next_action(state: SessionState, event: &SessionEvent) -> SessionAction {
    match (state, event) {
        (SessionState::Advertising, SessionEvent::Accepted) => SessionAction::Serve,
        (SessionState::Advertising, SessionEvent::AdvertiseFailed) => SessionAction::Halt,
        (SessionState::Connected, SessionEvent::Disconnected) => SessionAction::Advertise,
        (SessionState::Connected, SessionEvent::SubflowEnded) => SessionAction::Advertise,
        (SessionState::Connected, SessionEvent::ReadRequest) => SessionAction::Reply,
        (SessionState::Connected, SessionEvent::WriteRequest(_)) => SessionAction::Reply,
        (SessionState::Connected, SessionEvent::OtherRequest) => SessionAction::Reply,
        (SessionState::Connected, SessionEvent::TelemetryTick) => SessionAction::Notify,
        _ => SessionAction::Ignore,
    }
}

/// What `event` in `state` does to the store: only a decoded command batch
/// from a connected peer changes it.
pub open spec fn session_effect(state: SessionState, event: &SessionEvent, slots: Seq<PinSlot>) -> Seq<
    PinSlot,
> {
    match (state, event) {
        (SessionState::Connected, SessionEvent::WriteRequest(Some(req))) => command_effect(
            slots,
            req.pin_writes@,
        ),
        _ => slots,
    }
}

/// The wireless session: its state and the pins its telemetry reports.
pub struct Session {
    pub state: SessionState,
    /// Output pins reported in the digital snapshot.
    pub digital_pins: Vec<u8>,
    /// Analog pins reported in the analog snapshot.
    pub analog_pins: Vec<u8>,
}

impl Session {
    /// Well-formed: each snapshot fits its characteristic.
    pub open spec fn wf(&self) -> bool {
        &&& self.digital_pins@.len() <= MAX_DIGITAL_TELEMETRY_PINS
        &&& self.analog_pins@.len() <= MAX_ANALOG_TELEMETRY_PINS
    }

    /// A session for an allocation, advertising. Its digital snapshot
    /// reports the digital and PWM outputs, its analog snapshot the analog
    /// inputs.
    pub fn new(a: &Allocation) -> (r: Self)
        requires
            a.digital_outputs@.len() + a.pwm_outputs@.len() <= MAX_DIGITAL_TELEMETRY_PINS,
            a.analog_inputs@.len() <= MAX_ANALOG_TELEMETRY_PINS,
        ensures
            r.state == SessionState::Advertising,
            r.digital_pins@ == a.digital_outputs@ + a.pwm_outputs@,
            r.analog_pins@ == a.analog_inputs@,
            r.wf(),
    {
        let mut digital_pins: Vec<u8> = Vec::new();
        let mut i: usize = 0;
        while i < a.digital_outputs.len()
            invariant
                0 <= i <= a.digital_outputs@.len(),
                digital_pins@ == a.digital_outputs@.subrange(0, i as int),
            decreases a.digital_outputs@.len() - i,
        {
            digital_pins.push(a.digital_outputs[i]);
            i = i + 1;
            assert(digital_pins@ =~= a.digital_outputs@.subrange(0, i as int));
        }
        assert(a.digital_outputs@.subrange(0, i as int) =~= a.digital_outputs@);
        let mut j: usize = 0;
        while j < a.pwm_outputs.len()
            invariant
                0 <= j <= a.pwm_outputs@.len(),
                digital_pins@ == a.digital_outputs@ + a.pwm_outputs@.subrange(0, j as int),
            decreases a.pwm_outputs@.len() - j,
        {
            digital_pins.push(a.pwm_outputs[j]);
            j = j + 1;
            assert(digital_pins@ =~= a.digital_outputs@ + a.pwm_outputs@.subrange(0, j as int));
        }
        assert(a.pwm_outputs@.subrange(0, j as int) =~= a.pwm_outputs@);
        Session {
            state: SessionState::Advertising,
            digital_pins,
            analog_pins: a.analog_inputs.clone(),
        }
    }

    /// Handles one event: moves to the next state, applies a connected
    /// peer's command batch to the store, and says what to do next. A batch
    /// that is malformed or over the supported size changes nothing and is
    /// still acknowledged.
    pub fn step(&mut self, store: &mut PinStateStore, event: SessionEvent) -> (r: SessionAction)
        requires
            old(self).wf(),
        ensures
            final(self).state == next_state(old(self).state, &event),
            final(self).digital_pins@ == old(self).digital_pins@,
            final(self).analog_pins@ == old(self).analog_pins@,
            final(self).wf(),
            r == next_action(old(self).state, &event),
            final(store)@ == session_effect(old(self).state, &event, old(store)@),
            old(store).wf() ==> final(store).wf(),
    {
        match self.state {
            SessionState::Advertising => match event {
                SessionEvent::Accepted => {
                    self.state = SessionState::Connected;
                    SessionAction::Serve
                },
                SessionEvent::AdvertiseFailed => SessionAction::Halt,
                _ => SessionAction::Ignore,
            },
            SessionState::Connected => match event {
                SessionEvent::Disconnected | SessionEvent::SubflowEnded => {
                    self.state = SessionState::Advertising;
                    SessionAction::Advertise
                },
                SessionEvent::ReadRequest | SessionEvent::OtherRequest => SessionAction::Reply,
                SessionEvent::WriteRequest(payload) => {
                    if let Some(req) = payload {
                        let _ = apply_pin_writes(store, &req.pin_writes);
                    }
                    SessionAction::Reply
                },
                SessionEvent::TelemetryTick => SessionAction::Notify,
                _ => SessionAction::Ignore,
            },
        }
    }

    /// The two telemetry values to push: the digital snapshot and the
    /// analog snapshot, read from the store.
    pub fn telemetry(&self, store: &PinStateStore) -> (r: (Vec<u8>, Vec<u8>))
        requires
            self.wf(),
        ensures
            r.0@ == digital_payload(store@, self.digital_pins@),
            r.1@ == analog_payload(store@, self.analog_pins@),
    {
        (digital_snapshot(store, &self.digital_pins), analog_snapshot(store, &self.analog_pins))
    }
}

/// Session recovery: whatever the state, a disconnect or the end of a
/// sub-flow leaves the session advertising, asks for advertising to resume
/// when a peer was connected, and leaves the store untouched.
pub proof fn lemma_session_recovery(state: SessionState, slots: Seq<PinSlot>)
    ensures
        next_state(state, &SessionEvent::Disconnected) == SessionState::Advertising,
        next_state(state, &SessionEvent::SubflowEnded) == SessionState::Advertising,
        state == SessionState::Connected ==> next_action(state, &SessionEvent::Disconnected)
            == SessionAction::Advertise,
        state == SessionState::Connected ==> next_action(state, &SessionEvent::SubflowEnded)
            == SessionAction::Advertise,
        session_effect(state, &SessionEvent::Disconnected, slots) == slots,
        session_effect(state, &SessionEvent::SubflowEnded, slots) == slots,
{
}

/// Transport equivalence: a command batch written over the wireless link
/// by a connected peer changes the store exactly as the same batch posted
/// to the network write endpoint does, so every later read answers alike.
pub proof fn lemma_transport_equivalence(slots: Seq<PinSlot>, req: PinRequest, pins: Seq<u8>)
    ensures
        session_effect(SessionState::Connected, &SessionEvent::WriteRequest(Some(req)), slots)
            == command_effect(slots, req.pin_writes@),
        read_answer(
            session_effect(SessionState::Connected, &SessionEvent::WriteRequest(Some(req)), slots),
            pins,
        ) == read_answer(command_effect(slots, req.pin_writes@), pins),
{
}

} // verus!
