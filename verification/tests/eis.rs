use niri_input_portal::eis_server::{
    add_device, drive_handshake, keymap_bytes, keymap_for, Capabilities, DeviceCall, DeviceKind,
    Devices, EisCommand, HandshakeFailure, HandshakeInput, HandshakeStep, KeyboardDevice,
    PointerDevice, ReadOutcome, ReadStep, RequestInput, RequestStep, Server,
};

fn both() -> Devices {
    let mut devices = Devices::new();
    devices.add_pointer(PointerDevice { motion: true, button: true, scroll: true });
    devices.add_keyboard(KeyboardDevice { keys: true });
    devices
}

#[test]
fn a_run_starts_and_stops_on_every_device() {
    let mut devices = both();
    let start = devices.apply(&EisCommand::StartEmulating { sequence: 41 }, 0);
    assert_eq!(
        start,
        vec![
            DeviceCall::StartEmulating { device: DeviceKind::Pointer, sequence: 41 },
            DeviceCall::StartEmulating { device: DeviceKind::Keyboard, sequence: 41 },
        ]
    );
    assert!(devices.emulating);
    let again = devices.apply(&EisCommand::StartEmulating { sequence: 42 }, 0);
    assert!(again.is_empty());
    let stop = devices.apply(&EisCommand::StopEmulating, 0);
    assert_eq!(
        stop,
        vec![
            DeviceCall::StopEmulating { device: DeviceKind::Pointer },
            DeviceCall::StopEmulating { device: DeviceKind::Keyboard },
        ]
    );
    assert_eq!(devices, both());
    assert!(devices.apply(&EisCommand::StopEmulating, 0).is_empty());
}

#[test]
fn events_go_to_the_interface_that_takes_them() {
    let mut devices = both();
    let (dx, dy) = (1.5f32.to_bits(), (-2.0f32).to_bits());
    assert_eq!(
        devices.apply(&EisCommand::Motion { dx, dy }, 0),
        vec![DeviceCall::MotionRelative { dx, dy }]
    );
    assert_eq!(
        devices.apply(&EisCommand::Button { button: 272, press: true }, 0),
        vec![DeviceCall::Button { button: 272, press: true }]
    );
    assert_eq!(
        devices.apply(&EisCommand::Scroll { dx, dy }, 0),
        vec![DeviceCall::Scroll { dx, dy }]
    );
    assert_eq!(
        devices.apply(&EisCommand::ScrollDiscrete { dx: 0, dy: 120 }, 0),
        vec![DeviceCall::ScrollDiscrete { dx: 0, dy: 120 }]
    );
    assert_eq!(devices.apply(&EisCommand::ScrollStop, 0), vec![DeviceCall::ScrollStop]);
    assert_eq!(
        devices.apply(&EisCommand::Key { keycode: 30, press: false }, 0),
        vec![DeviceCall::Key { keycode: 30, press: false }]
    );
}

#[test]
fn events_without_an_interface_go_nowhere() {
    let mut devices = Devices::new();
    assert!(devices.apply(&EisCommand::Motion { dx: 0, dy: 0 }, 0).is_empty());
    assert!(devices.apply(&EisCommand::Frame, 0).is_empty());
    devices.add_pointer(PointerDevice { motion: true, button: false, scroll: false });
    assert!(devices.apply(&EisCommand::Button { button: 1, press: true }, 0).is_empty());
    assert!(devices.apply(&EisCommand::ScrollStop, 0).is_empty());
    assert!(devices.apply(&EisCommand::Key { keycode: 1, press: true }, 0).is_empty());
    devices.add_keyboard(KeyboardDevice { keys: false });
    assert!(devices.apply(&EisCommand::Key { keycode: 1, press: true }, 0).is_empty());
}

#[test]
fn frames_carry_the_time() {
    let mut devices = both();
    assert_eq!(
        devices.apply(&EisCommand::Frame, 1234),
        vec![
            DeviceCall::Frame { device: DeviceKind::Pointer, time: 1234 },
            DeviceCall::Frame { device: DeviceKind::Keyboard, time: 1234 },
        ]
    );
    let late = devices.apply(&EisCommand::Frame, u128::MAX);
    assert_eq!(late[0], DeviceCall::Frame { device: DeviceKind::Pointer, time: u64::MAX });
}

#[test]
fn a_handshake_ends_in_a_seat() {
    assert_eq!(drive_handshake(HandshakeInput::Handled), HandshakeStep::Continue);
    assert_eq!(drive_handshake(HandshakeInput::Drained), HandshakeStep::Wait);
    assert_eq!(
        drive_handshake(HandshakeInput::Complete { seat: true, device: true }),
        HandshakeStep::AddSeat {
            capabilities: Capabilities { pointer: true, keyboard: true, button: true, scroll: true }
        }
    );
}

#[test]
fn a_handshake_fails_on_each_breach() {
    assert_eq!(
        drive_handshake(HandshakeInput::Complete { seat: false, device: true }),
        HandshakeStep::Disconnect
    );
    assert_eq!(
        drive_handshake(HandshakeInput::Complete { seat: true, device: false }),
        HandshakeStep::Disconnect
    );
    assert_eq!(
        drive_handshake(HandshakeInput::ParseError),
        HandshakeStep::Fail(HandshakeFailure::ParseError)
    );
    assert_eq!(
        drive_handshake(HandshakeInput::InvalidObject { id: 9 }),
        HandshakeStep::Fail(HandshakeFailure::InvalidObject { id: 9 })
    );
    assert_eq!(
        drive_handshake(HandshakeInput::Refused),
        HandshakeStep::Fail(HandshakeFailure::Refused)
    );
}

#[test]
fn a_bind_adds_what_is_missing() {
    let all = Capabilities { pointer: true, keyboard: true, button: true, scroll: true };
    let mut devices = Devices::new();
    assert_eq!(
        devices.drive_requests(RequestInput::Bind { capabilities: all }),
        RequestStep::AddDevices { pointer: true, keyboard: true }
    );
    devices.add_pointer(PointerDevice { motion: true, button: true, scroll: true });
    assert_eq!(
        devices.drive_requests(RequestInput::Bind { capabilities: all }),
        RequestStep::AddDevices { pointer: false, keyboard: true }
    );
    let keys = Capabilities { pointer: false, keyboard: false, button: true, scroll: true };
    assert_eq!(
        Devices::new().drive_requests(RequestInput::Bind { capabilities: keys }),
        RequestStep::AddDevices { pointer: false, keyboard: false }
    );
}

#[test]
fn a_device_is_added_once() {
    let all = Capabilities { pointer: true, keyboard: true, button: true, scroll: true };
    let mut devices = Devices::new();
    devices.add_pointer(PointerDevice { motion: true, button: true, scroll: true });
    devices.add_keyboard(KeyboardDevice { keys: true });
    for _ in 0..3 {
        assert_eq!(
            devices.drive_requests(RequestInput::Bind { capabilities: all }),
            RequestStep::AddDevices { pointer: false, keyboard: false }
        );
    }
}

#[test]
fn requests_are_answered_one_by_one() {
    let devices = Devices::new();
    assert_eq!(devices.drive_requests(RequestInput::Drained), RequestStep::Wait);
    assert_eq!(devices.drive_requests(RequestInput::Disconnect), RequestStep::Close);
    assert_eq!(devices.drive_requests(RequestInput::ParseError), RequestStep::FailParse);
    assert_eq!(devices.drive_requests(RequestInput::Refused), RequestStep::FailRequest);
    assert_eq!(
        devices.drive_requests(RequestInput::InvalidObject { id: 5 }),
        RequestStep::ReportInvalid { id: 5 }
    );
    assert_eq!(devices.drive_requests(RequestInput::Other), RequestStep::Continue);
}

#[test]
fn devices_are_named_by_kind() {
    let (name, caps) = add_device(DeviceKind::Pointer);
    assert_eq!(name, "niri-capture-pointer");
    assert_eq!(
        caps,
        Capabilities { pointer: true, keyboard: false, button: true, scroll: true }
    );
    let (name, caps) = add_device(DeviceKind::Keyboard);
    assert_eq!(name, "niri-capture-keyboard");
    assert_eq!(
        caps,
        Capabilities { pointer: false, keyboard: true, button: false, scroll: false }
    );
}

#[test]
fn keymaps_end_in_a_nul() {
    assert_eq!(keymap_bytes("xkb é"), Some((b"xkb \xc3\xa9\0".to_vec(), 7)));
    assert_eq!(keymap_for(true, Some(String::new())), Some((vec![0], 1)));
    assert_eq!(keymap_for(true, None), None);
    assert_eq!(keymap_for(false, Some("xkb".to_owned())), None);
}

#[test]
fn commands_wait_for_the_handshake() {
    let mut server = Server::new();
    assert!(server.command(&EisCommand::StartEmulating { sequence: 1 }, 0).is_empty());
    assert!(!server.devices.emulating);
    assert_eq!(server.readable(ReadOutcome::Data), ReadStep::Handshake);
    server.handshake_complete();
    server.devices.add_keyboard(KeyboardDevice { keys: true });
    assert_eq!(server.readable(ReadOutcome::Data), ReadStep::Requests);
    assert_eq!(
        server.command(&EisCommand::StartEmulating { sequence: 1 }, 0),
        vec![DeviceCall::StartEmulating { device: DeviceKind::Keyboard, sequence: 1 }]
    );
    assert_eq!(server.readable(ReadOutcome::EndOfFile), ReadStep::Finish);
    assert_eq!(server.readable(ReadOutcome::Error), ReadStep::Fail);
}

#[test]
fn devices_of_receivers_are_counted() {
    let mut server = Server::new();
    server.device_added(false);
    assert_eq!(server.sequence, 0);
    server.device_added(true);
    assert_eq!(server.sequence, 1);
    server.sequence = u32::MAX;
    server.device_added(true);
    assert_eq!(server.sequence, 0);
}
