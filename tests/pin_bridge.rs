use pin_bridge::{
    Application,
    allocate, analog_snapshot, apply_pin_writes, digital_snapshot, input_state, output_level,
    pin_supports_role, pwm_duty, read_pins_handler, u32_to_u8_pair, write_pins_handler,
    Allocation, CommandError, PinConfig, PinReadItem, PinReadRequest, PinRequest, PinRole,
    PinSlot, PinStateStore, PinWriteItem, PinWriteResponse, Session, SessionAction, SessionEvent,
    SessionState, SlotWriter, writer_owns_role, MAX_PIN_WRITES, PAYLOAD_LEN,
};

fn config(outs: &[u8], ins: &[u8], pwm: &[u8], adc: &[u8]) -> PinConfig {
    PinConfig {
        device_name: String::from("pin-bridge"),
        digital_outputs: outs.to_vec(),
        digital_inputs: ins.to_vec(),
        pwm_outputs: pwm.to_vec(),
        analog_inputs: adc.to_vec(),
    }
}

fn setup(outs: &[u8], ins: &[u8], pwm: &[u8], adc: &[u8]) -> (Allocation, PinStateStore) {
    let a = allocate(&config(outs, ins, pwm, adc));
    let store = PinStateStore::new(&a);
    (a, store)
}

fn writes(items: &[(u8, u8)]) -> PinRequest {
    PinRequest {
        pin_writes: items
            .iter()
            .map(|&(pin_num, state)| PinWriteItem { pin_num, state })
            .collect(),
    }
}

fn read(store: &PinStateStore, pins: &[u8]) -> Vec<PinReadItem> {
    read_pins_handler(store, &PinReadRequest { pin_reads: pins.to_vec() }).pin_reads
}

#[test]
fn allocation_precedence_decides_shared_pins() {
    let a = allocate(&config(&[14, 26], &[14, 25], &[25, 33, 14], &[32, 14, 35, 35]));
    assert_eq!(a.digital_outputs, vec![14, 26]);
    assert_eq!(a.digital_inputs, vec![25]);
    assert_eq!(a.pwm_outputs, vec![33]);
    assert_eq!(a.analog_inputs, vec![32, 35]);
}

#[test]
fn allocation_drops_unwirable_and_repeated_pins() {
    let a = allocate(&config(&[2, 14, 14, 32], &[35, 33], &[], &[26, 99]));
    assert_eq!(a.digital_outputs, vec![14]);
    assert_eq!(a.digital_inputs, vec![33]);
    assert!(a.pwm_outputs.is_empty());
    assert!(a.analog_inputs.is_empty());
}

#[test]
fn allocation_of_empty_config_is_empty() {
    let (a, store) = setup(&[], &[], &[], &[]);
    assert!(a.digital_outputs.is_empty() && a.analog_inputs.is_empty());
    assert!(store.slots().is_empty());
}

#[test]
fn board_table() {
    assert!(pin_supports_role(PinRole::DigitalOutput, 14));
    assert!(pin_supports_role(PinRole::PwmOutput, 33));
    assert!(!pin_supports_role(PinRole::DigitalInput, 32));
    assert!(pin_supports_role(PinRole::AnalogInput, 35));
    assert!(!pin_supports_role(PinRole::AnalogInput, 14));
}

#[test]
fn store_starts_with_one_zero_slot_per_active_pin() {
    let (_, store) = setup(&[14], &[25], &[33], &[32]);
    assert_eq!(
        store.slots().clone(),
        vec![
            PinSlot { pin: 14, role: PinRole::DigitalOutput, value: 0 },
            PinSlot { pin: 25, role: PinRole::DigitalInput, value: 0 },
            PinSlot { pin: 33, role: PinRole::PwmOutput, value: 0 },
            PinSlot { pin: 32, role: PinRole::AnalogInput, value: 0 },
        ]
    );
    assert_eq!(store.role(33), Some(PinRole::PwmOutput));
    assert_eq!(store.role(26), None);
}

#[test]
fn unknown_pin_reads_zero_and_ignores_writes() {
    let (_, mut store) = setup(&[14], &[], &[], &[32]);
    store.write(14, SlotWriter::Command, 100);
    let before = store.slots().clone();
    store.write(99, SlotWriter::Command, 7);
    store.write(26, SlotWriter::Command, 7);
    assert_eq!(store.slots().clone(), before);
    assert_eq!(store.read(99), 0);
    assert_eq!(store.read(14), 100);
}

#[test]
fn writer_must_own_the_slot() {
    let (_, mut store) = setup(&[14], &[25], &[], &[32]);
    store.write(25, SlotWriter::Command, 100);
    store.write(14, SlotWriter::InputSampler, 100);
    store.write(14, SlotWriter::AnalogSampler, 100);
    assert_eq!(store.read(25), 0);
    assert_eq!(store.read(14), 0);
}

#[test]
fn command_round_trip_drives_level() {
    let (_, mut store) = setup(&[14], &[], &[], &[]);
    store.write(14, SlotWriter::Command, 100);
    assert!(store.drive_level(14));
    store.write(14, SlotWriter::Command, 99);
    assert!(!store.drive_level(14));
    store.write(14, SlotWriter::Command, 0);
    assert!(!store.drive_level(14));
}

#[test]
fn output_level_is_high_only_at_hundred() {
    assert!(output_level(100));
    assert!(!output_level(0));
    assert!(!output_level(101));
    assert!(!output_level(1));
}

#[test]
fn pwm_duty_mapping() {
    assert_eq!(pwm_duty(0, 4095), 0);
    assert_eq!(pwm_duty(50, 4095), 2047);
    assert_eq!(pwm_duty(100, 4095), 4095);
    assert_eq!(pwm_duty(33, 1000), 330);
    assert_eq!(pwm_duty(1, 99), 0);
    for d in 0..=100u32 {
        assert_eq!(pwm_duty(d, 8191) as u32, d * 8191 / 100);
    }
}

#[test]
fn pwm_duty_above_hundred_keeps_sixteen_bits() {
    assert_eq!(pwm_duty(255, 65535), ((255u64 * 65535 / 100) % 65536) as u16);
}

#[test]
fn pwm_driver_reads_the_slot() {
    let (_, mut store) = setup(&[], &[], &[26], &[]);
    store.write(26, SlotWriter::Command, 25);
    assert_eq!(store.drive_duty(26, 4095), 1023);
    assert_eq!(store.drive_duty(14, 4095), 0);
}

#[test]
fn input_sampler_stores_levels() {
    assert_eq!(input_state(true), 100);
    assert_eq!(input_state(false), 0);
    let (_, mut store) = setup(&[14], &[25], &[], &[]);
    store.record_input(25, true);
    assert_eq!(store.read(25), 100);
    store.record_input(25, false);
    assert_eq!(store.read(25), 0);
    store.record_input(14, true);
    assert_eq!(store.read(14), 0);
}

#[test]
fn analog_failure_keeps_previous_value() {
    let (_, mut store) = setup(&[], &[], &[], &[35]);
    store.record_analog(35, Some(3000));
    assert_eq!(store.read(35), 3000);
    store.record_analog(35, None);
    assert_eq!(store.read(35), 3000);
}

#[test]
fn bounded_command_batch_is_refused_whole() {
    let (_, mut store) = setup(&[14], &[], &[], &[]);
    let mut items: Vec<(u8, u8)> = vec![(14, 100)];
    for _ in 0..MAX_PIN_WRITES {
        items.push((26, 1));
    }
    let req = writes(&items);
    assert_eq!(apply_pin_writes(&mut store, &req.pin_writes), Err(CommandError::TooManyWrites));
    assert_eq!(store.read(14), 0);
    assert_eq!(write_pins_handler(&mut store, &req), Err(CommandError::TooManyWrites));
    assert_eq!(store.read(14), 0);
}

#[test]
fn full_command_batch_is_applied_in_order() {
    let (_, mut store) = setup(&[14, 26], &[], &[], &[]);
    let mut items: Vec<(u8, u8)> = vec![(14, 1); MAX_PIN_WRITES - 1];
    items.push((14, 100));
    let req = writes(&items);
    assert_eq!(write_pins_handler(&mut store, &req), Ok(PinWriteResponse { success: true }));
    assert_eq!(store.read(14), 100);
}

#[test]
fn network_write_ignores_unknown_pins() {
    let (_, mut store) = setup(&[14], &[], &[], &[32]);
    let req = writes(&[(14, 100), (99, 5), (32, 7)]);
    assert_eq!(write_pins_handler(&mut store, &req), Ok(PinWriteResponse { success: true }));
    assert_eq!(
        read(&store, &[14, 99, 32]),
        vec![
            PinReadItem { pin_num: 14, state: 100 },
            PinReadItem { pin_num: 99, state: 0 },
            PinReadItem { pin_num: 32, state: 0 },
        ]
    );
}

#[test]
fn read_handler_keeps_request_order() {
    let (_, store) = setup(&[], &[], &[], &[]);
    let r = read_pins_handler(&store, &PinReadRequest { pin_reads: vec![] });
    assert!(r.success);
    assert!(r.pin_reads.is_empty());
}

fn connected_session(a: &Allocation, store: &mut PinStateStore) -> Session {
    let mut s = Session::new(a);
    assert_eq!(s.step(store, SessionEvent::Accepted), SessionAction::Serve);
    s
}

#[test]
fn transport_equivalence() {
    let (a, mut over_air) = setup(&[14, 26], &[25], &[33], &[32]);
    let (_, mut over_net) = setup(&[14, 26], &[25], &[33], &[32]);
    let batch: &[(u8, u8)] = &[(14, 100), (26, 3), (33, 40), (25, 100), (7, 1)];
    let mut s = connected_session(&a, &mut over_air);
    let r = s.step(&mut over_air, SessionEvent::WriteRequest(Some(writes(batch))));
    assert_eq!(r, SessionAction::Reply);
    assert_eq!(write_pins_handler(&mut over_net, &writes(batch)), Ok(PinWriteResponse { success: true }));
    assert_eq!(over_air.slots().clone(), over_net.slots().clone());
    let pins = [14, 26, 25, 33, 32, 7];
    assert_eq!(read(&over_air, &pins), read(&over_net, &pins));
}

#[test]
fn session_recovery_after_disconnect() {
    let (a, mut store) = setup(&[14], &[], &[], &[]);
    let mut s = connected_session(&a, &mut store);
    assert_eq!(s.state, SessionState::Connected);
    s.step(&mut store, SessionEvent::WriteRequest(Some(writes(&[(14, 100)]))));
    let before = store.slots().clone();
    assert_eq!(s.step(&mut store, SessionEvent::Disconnected), SessionAction::Advertise);
    assert_eq!(s.state, SessionState::Advertising);
    assert_eq!(store.slots().clone(), before);
    assert_eq!(s.step(&mut store, SessionEvent::Accepted), SessionAction::Serve);
    assert_eq!(s.step(&mut store, SessionEvent::SubflowEnded), SessionAction::Advertise);
    assert_eq!(s.state, SessionState::Advertising);
    assert_eq!(store.read(14), 100);
}

#[test]
fn session_acknowledges_every_event() {
    let (a, mut store) = setup(&[14], &[], &[], &[]);
    let mut s = connected_session(&a, &mut store);
    assert_eq!(s.step(&mut store, SessionEvent::ReadRequest), SessionAction::Reply);
    assert_eq!(s.step(&mut store, SessionEvent::OtherRequest), SessionAction::Reply);
    assert_eq!(s.step(&mut store, SessionEvent::WriteRequest(None)), SessionAction::Reply);
    assert_eq!(store.read(14), 0);
    let too_many = writes(&[(14, 100); MAX_PIN_WRITES + 1]);
    assert_eq!(s.step(&mut store, SessionEvent::WriteRequest(Some(too_many))), SessionAction::Reply);
    assert_eq!(store.read(14), 0);
    assert_eq!(s.step(&mut store, SessionEvent::TelemetryTick), SessionAction::Notify);
    assert_eq!(s.state, SessionState::Connected);
}

#[test]
fn session_while_advertising() {
    let (a, mut store) = setup(&[14], &[], &[], &[]);
    let mut s = Session::new(&a);
    assert_eq!(s.state, SessionState::Advertising);
    assert_eq!(
        s.step(&mut store, SessionEvent::WriteRequest(Some(writes(&[(14, 100)])))),
        SessionAction::Ignore
    );
    assert_eq!(store.read(14), 0);
    assert_eq!(s.step(&mut store, SessionEvent::Disconnected), SessionAction::Ignore);
    assert_eq!(s.step(&mut store, SessionEvent::AdvertiseFailed), SessionAction::Halt);
    assert_eq!(s.state, SessionState::Advertising);
}

#[test]
fn u32_to_u8_pair_splits_low_sixteen_bits() {
    assert_eq!(u32_to_u8_pair(0x1234), (0x12, 0x34));
    assert_eq!(u32_to_u8_pair(4095), (0x0f, 0xff));
    assert_eq!(u32_to_u8_pair(0), (0, 0));
    assert_eq!(u32_to_u8_pair(0x00ab_cdef), (0xcd, 0xef));
}

#[test]
fn telemetry_snapshots() {
    let (a, mut store) = setup(&[14], &[], &[26], &[32, 35]);
    store.write(14, SlotWriter::Command, 100);
    store.write(26, SlotWriter::Command, 40);
    store.record_analog(32, Some(0x0abc));
    store.record_analog(35, Some(17));
    let s = Session::new(&a);
    let (digital, analog) = s.telemetry(&store);
    let mut expect_digital = vec![2u8, 14, 100, 26, 40];
    expect_digital.resize(PAYLOAD_LEN, 0);
    let mut expect_analog = vec![2u8, 32, 0x0a, 0xbc, 35, 0, 17];
    expect_analog.resize(PAYLOAD_LEN, 0);
    assert_eq!(digital, expect_digital);
    assert_eq!(analog, expect_analog);
    assert_eq!(digital_snapshot(&store, &vec![]), vec![0u8; PAYLOAD_LEN]);
    let mut one = vec![1u8, 99, 0, 0];
    one.resize(PAYLOAD_LEN, 0);
    assert_eq!(analog_snapshot(&store, &vec![99]), one);
}

#[test]
fn scenario_write_over_air_read_over_network() {
    let (a, mut store) = setup(&[14], &[], &[], &[32]);
    let mut s = connected_session(&a, &mut store);
    store.record_analog(32, Some(1875));
    s.step(&mut store, SessionEvent::WriteRequest(Some(writes(&[(14, 100)]))));
    assert_eq!(
        read(&store, &[14, 32]),
        vec![PinReadItem { pin_num: 14, state: 100 }, PinReadItem { pin_num: 32, state: 1875 }]
    );
}

#[test]
fn scenario_write_over_network_read_over_air() {
    let (a, mut store) = setup(&[14], &[], &[], &[32]);
    store.record_analog(32, Some(1875));
    assert_eq!(
        write_pins_handler(&mut store, &writes(&[(14, 100)])),
        Ok(PinWriteResponse { success: true })
    );
    let s = Session::new(&a);
    let (digital, analog) = s.telemetry(&store);
    assert_eq!(&digital[..3], &[1, 14, 100]);
    assert_eq!(&analog[..4], &[1, 32, (1875 >> 8) as u8, (1875 & 0xff) as u8]);
}

#[test]
fn application_scenario_over_both_transports() {
    let mut app = Application::new(&config(&[14], &[], &[], &[32]));
    assert_eq!(app.allocation.digital_outputs, vec![14]);
    assert_eq!(app.allocation.analog_inputs, vec![32]);
    assert_eq!(app.on_session_event(SessionEvent::Accepted), SessionAction::Serve);
    app.store.record_analog(32, Some(2222));
    let action = app.on_session_event(SessionEvent::WriteRequest(Some(writes(&[(14, 100)]))));
    assert_eq!(action, SessionAction::Reply);
    let r = app.read_pins(&PinReadRequest { pin_reads: vec![14, 32] });
    assert!(r.success);
    assert_eq!(
        r.pin_reads,
        vec![PinReadItem { pin_num: 14, state: 100 }, PinReadItem { pin_num: 32, state: 2222 }]
    );
    assert_eq!(app.write_pins(&writes(&[(14, 0)])), Ok(PinWriteResponse { success: true }));
    let (digital, analog) = app.telemetry();
    assert_eq!(&digital[..3], &[1, 14, 0]);
    assert_eq!(&analog[..4], &[1, 32, 0x08, 0xae]);
    assert_eq!(app.on_session_event(SessionEvent::Disconnected), SessionAction::Advertise);
    assert_eq!(app.session.state, SessionState::Advertising);
}

#[test]
fn each_role_has_one_writer() {
    let writers = [SlotWriter::Command, SlotWriter::InputSampler, SlotWriter::AnalogSampler];
    let roles = [PinRole::DigitalOutput, PinRole::PwmOutput, PinRole::DigitalInput, PinRole::AnalogInput];
    for role in roles {
        assert_eq!(writers.iter().filter(|w| writer_owns_role(**w, role)).count(), 1);
    }
    assert!(writer_owns_role(SlotWriter::Command, PinRole::PwmOutput));
    assert!(!writer_owns_role(SlotWriter::Command, PinRole::AnalogInput));
}

#[test]
fn session_reports_outputs_and_analog_inputs() {
    let a = allocate(&config(&[26], &[14], &[33, 25], &[35]));
    let s = Session::new(&a);
    assert_eq!(s.digital_pins, vec![26, 33, 25]);
    assert_eq!(s.analog_pins, vec![35]);
    assert_eq!(s.state, SessionState::Advertising);
}
