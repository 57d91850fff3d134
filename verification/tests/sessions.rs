use niri_input_portal::coord::Coord;
use niri_input_portal::eis_server::EisHandle;
use niri_input_portal::niri::{OutputZone, Zone};
use niri_input_portal::portal::dict::{Dict, DictValue};
use niri_input_portal::portal::input_capture::{
    requested_capabilities, CreateFailure, CreateStep, EisSetup,
};
use niri_input_portal::portal::{
    activate, deactivate, handle_eis_closed, pump_wayland_events, Barrier, Clipboard, Control,
    Effect, Fault, InputCapture, Reply, SessionObject, State, CAP_KEYBOARD, CAP_POINTER,
    CAP_TOUCHSCREEN,
};
use niri_input_portal::wayland::{WaylandCmd, WaylandEvent};

const EIS: EisHandle = EisHandle { id: 5 };

fn show<T: std::fmt::Debug>(value: T) -> String {
    format!("{value:?}")
}

fn handle() -> String {
    "/session/1".to_owned()
}

fn zone(name: &str, x: i32) -> OutputZone {
    OutputZone {
        name: name.to_owned(),
        zone: Zone { width: 100, height: 50, x, y: 0 },
        scale: 0,
        transform: "Normal".to_owned(),
    }
}

fn asking(caps: u32) -> Dict {
    vec![("capabilities".to_owned(), DictValue::U32(caps))]
}

/// A state with one session of the second version, not started.
fn created() -> State<u32> {
    let mut state = State::new();
    state.set_connection();
    let todo =
        InputCapture::create(&mut state, &handle(), &"app".to_owned(), 0, false, vec![zone("a", 0)]);
    assert!(todo.is_empty());
    state
}

fn line(id: u32, x1: i32, y1: i32, x2: i32, y2: i32) -> Dict {
    vec![
        ("barrier_id".to_owned(), DictValue::U32(id)),
        ("position".to_owned(), DictValue::Line { x1, y1, x2, y2 }),
    ]
}

fn barrier() -> Barrier {
    Barrier { id: 7, x1: 100, y1: 0, x2: 100, y2: 50 }
}

/// The same, started, connected, with one barrier, and enabled.
fn enabled() -> State<u32> {
    let mut state = created();
    InputCapture::start(&mut state, &handle(), &asking(3));
    assert!(InputCapture::connect_to_eis(&state, &handle()).is_ok());
    assert!(InputCapture::eis_set_up(&mut state, &handle(), EisSetup::Connected(EIS)).is_ok());
    InputCapture::set_pointer_barriers(&mut state, &handle(), &vec![line(7, 100, 0, 100, 50)], 1);
    let (reply, todo) = InputCapture::enable(&mut state, &handle());
    assert_eq!(reply.response, 0);
    assert_eq!(show(todo), show(vec![Effect::Wayland(WaylandCmd::Arm(vec![barrier()]))]));
    state
}

fn origin() -> (Coord, Coord) {
    (Coord::of_pixel(0), Coord::of_pixel(0))
}

fn crossing() -> WaylandEvent {
    WaylandEvent::Activated { barrier_id: 7, position: (Coord::of_pixel(99), Coord::of_pixel(20)) }
}

fn refused(reply: &Reply) -> bool {
    reply.response == 2 && reply.results.is_empty()
}

#[test]
fn capabilities_are_what_was_asked_for_and_is_supported() {
    assert_eq!(InputCapture::supported_capabilities(), 3);
    assert_eq!(InputCapture::version(), 2);
    assert_eq!(requested_capabilities(&Vec::new()), 0);
    assert_eq!(requested_capabilities(&asking(9)), 9);
    let odd = vec![("capabilities".to_owned(), DictValue::Bool(true))];
    assert_eq!(requested_capabilities(&odd), 0);
    for asked in [1, 2, 3, 6, 7, u32::MAX] {
        let step = InputCapture::create_session(&asking(asked));
        let expected = asked & (CAP_KEYBOARD | CAP_POINTER);
        assert!(matches!(step, CreateStep::Register { capabilities } if capabilities == expected));
    }
    for asked in [0, CAP_TOUCHSCREEN, 8] {
        let step = InputCapture::create_session(&asking(asked));
        assert!(matches!(step, CreateStep::Refuse(ref reply) if refused(reply)));
    }
}

#[test]
fn a_new_session_has_nothing_yet() {
    let state = created();
    assert_eq!(state.sessions.len(), 1);
    let s = &state.sessions[0];
    assert_eq!((s.handle.as_str(), s.app_id.as_str()), ("/session/1", "app"));
    assert_eq!((s.capabilities, s.zone_set, s.activation_id), (0, 1, 0));
    assert!(!s.started && !s.enabled && !s.clipboard_requested && s.eis.is_none());
    assert!(s.barriers.is_empty());
    assert_eq!(state.next_zone_set, 2);
}

#[test]
fn the_first_version_answers_with_the_session() {
    let reply = InputCapture::session_created(&handle(), 3, true);
    assert_eq!(reply.response, 0);
    assert_eq!(
        show(reply.results),
        "[(\"session_id\", Text(\"/session/1\")), (\"capabilities\", U32(3))]"
    );
    assert!(refused(&InputCapture::session_created(&handle(), 3, false)));
}

#[test]
fn the_second_version_fails_with_an_error() {
    let fault = InputCapture::create_session2_failed(CreateFailure::Outputs("no niri".to_owned()));
    assert!(matches!(fault, Fault::Failed(ref t) if t == "cannot enumerate niri outputs: no niri"));
    let fault = InputCapture::create_session2_failed(CreateFailure::Export("taken".to_owned()));
    assert!(matches!(fault, Fault::Failed(ref t) if t == "failed to export session object: taken"));
}

#[test]
fn a_session_that_cannot_be_exported_goes_again() {
    let mut state = enabled();
    let todo = InputCapture::export_failed(&mut state, &handle());
    assert_eq!(show(todo), show(vec![Effect::DropEis(EIS)]));
    assert!(state.sessions.is_empty());
    assert!(InputCapture::export_failed(&mut state, &handle()).is_empty());
}

#[test]
fn a_handle_belongs_to_one_session() {
    let mut state = enabled();
    let todo =
        InputCapture::create(&mut state, &handle(), &"other".to_owned(), 1, true, Vec::new());
    assert_eq!(show(todo), show(vec![Effect::DropEis(EIS)]));
    assert_eq!(state.sessions.len(), 1);
    assert_eq!(state.sessions[0].app_id, "other");
    assert_eq!(state.sessions[0].zone_set, 2);
}

#[test]
fn a_session_is_started_once() {
    let mut state = created();
    assert!(refused(&InputCapture::start(&mut state, &handle(), &asking(4))));
    assert!(refused(&InputCapture::start(&mut state, &"/nowhere".to_owned(), &asking(3))));
    let reply = InputCapture::start(&mut state, &handle(), &asking(7));
    assert_eq!(reply.response, 0);
    assert_eq!(
        show(reply.results),
        "[(\"capabilities\", U32(3)), (\"clipboard_enabled\", Bool(false))]"
    );
    assert!(refused(&InputCapture::start(&mut state, &handle(), &asking(7))));
    assert_eq!(state.sessions[0].capabilities, 3);
}

#[test]
fn start_says_whether_the_clipboard_was_asked_for() {
    let mut state = created();
    Clipboard::request_clipboard(&mut state, &handle());
    let reply = InputCapture::start(&mut state, &handle(), &asking(1));
    assert_eq!(
        show(reply.results),
        "[(\"capabilities\", U32(1)), (\"clipboard_enabled\", Bool(true))]"
    );
}

#[test]
fn zones_are_told_with_their_set() {
    let mut state = created();
    let reply = InputCapture::get_zones(&mut state, &handle(), Some(vec![zone("renamed", 0)]));
    assert_eq!(
        show(reply.results),
        "[(\"zones\", Zones([ZoneTuple { width: 100, height: 50, x: 0, y: 0 }])), (\"zone_set\", U32(1))]"
    );
    assert_eq!(state.sessions[0].zones[0].name, "renamed");
    assert!(refused(&InputCapture::get_zones(&mut state, &handle(), None)));
    assert!(refused(&InputCapture::get_zones(&mut state, &"/no".to_owned(), Some(Vec::new()))));
}

#[test]
fn a_new_layout_makes_old_barriers_stale() {
    let mut state = enabled();
    let same = InputCapture::get_zones(&mut state, &handle(), Some(vec![zone("a", 0)]));
    assert!(show(same.results).contains("(\"zone_set\", U32(1))"));
    assert_eq!(state.sessions[0].barriers.len(), 1);
    let moved = InputCapture::get_zones(
        &mut state,
        &handle(),
        Some(vec![zone("a", 0), zone("b", 100)]),
    );
    assert!(show(moved.results).contains("(\"zone_set\", U32(2))"));
    assert!(state.sessions[0].barriers.is_empty());
    assert_eq!(state.next_zone_set, 3);
    // What was described for the old layout is turned down as a whole.
    let reply = InputCapture::set_pointer_barriers(
        &mut state,
        &handle(),
        &vec![line(7, 100, 0, 100, 50), line(8, 0, 0, 0, 50)],
        1,
    );
    assert_eq!(reply.response, 0);
    assert_eq!(show(reply.results), "[(\"failed_barriers\", Numbers([7, 8]))]");
    assert!(state.sessions[0].barriers.is_empty());
}

#[test]
fn barriers_are_sorted_out() {
    let mut state = created();
    let nameless = vec![("position".to_owned(), DictValue::Line { x1: 0, y1: 0, x2: 0, y2: 9 })];
    let placeless = vec![("barrier_id".to_owned(), DictValue::U32(4))];
    let mistyped = vec![
        ("barrier_id".to_owned(), DictValue::U32(5)),
        ("position".to_owned(), DictValue::U32(1)),
    ];
    let list = vec![
        line(1, 0, 0, 0, 50),
        line(2, 0, 0, 9, 9),
        line(0, 0, 0, 0, 50),
        nameless,
        placeless,
        mistyped,
        line(6, 0, 50, 100, 50),
    ];
    let reply = InputCapture::set_pointer_barriers(&mut state, &handle(), &list, 1);
    assert_eq!(show(reply.results), "[(\"failed_barriers\", Numbers([2, 0, 4, 5]))]");
    let ids: Vec<u32> = state.sessions[0].barriers.iter().map(|b| b.id).collect();
    assert_eq!(ids, vec![1, 6]);
    let unknown = "/no".to_owned();
    assert!(refused(&InputCapture::set_pointer_barriers(&mut state, &unknown, &list, 1)));
}

#[test]
fn a_stale_set_keeps_the_barriers_there_are() {
    let mut state = enabled();
    InputCapture::set_pointer_barriers(&mut state, &handle(), &vec![line(9, 0, 0, 0, 9)], 44);
    assert_eq!(state.sessions[0].barriers, vec![barrier()]);
}

#[test]
fn one_connection_for_each_session() {
    let mut state = created();
    let unknown = InputCapture::connect_to_eis(&state, &"/no".to_owned());
    assert!(matches!(unknown, Err(Fault::InvalidArgs(ref t)) if t == "unknown session"));
    let none = InputCapture::eis_set_up(&mut state, &handle(), EisSetup::NoSocket("full".to_owned()));
    assert!(matches!(none, Err(Fault::Failed(ref t)) if t == "socketpair failed: full"));
    let none = InputCapture::eis_set_up(&mut state, &handle(), EisSetup::NoServer("odd".to_owned()));
    assert!(matches!(none, Err(Fault::Failed(ref t)) if t == "EIS setup failed: odd"));
    assert!(state.sessions[0].eis.is_none());
    let lost =
        InputCapture::eis_set_up(&mut state, &"/no".to_owned(), EisSetup::Connected(EIS));
    assert!(matches!(lost, Err(Fault::InvalidArgs(_))));
    assert!(InputCapture::eis_set_up(&mut state, &handle(), EisSetup::Connected(EIS)).is_ok());
    let twice = InputCapture::connect_to_eis(&state, &handle());
    assert!(matches!(
        twice,
        Err(Fault::Failed(ref t)) if t == "EIS connection already established for this session"
    ));
}

#[test]
fn enabling_takes_a_start_and_a_connection() {
    let mut state = created();
    let (reply, todo) = InputCapture::enable(&mut state, &"/no".to_owned());
    assert!(refused(&reply) && todo.is_empty());
    InputCapture::eis_set_up(&mut state, &handle(), EisSetup::Connected(EIS)).expect("set up");
    let (reply, todo) = InputCapture::enable(&mut state, &handle());
    assert!(refused(&reply) && todo.is_empty());
    let mut state = created();
    InputCapture::start(&mut state, &handle(), &asking(3));
    let (reply, todo) = InputCapture::enable(&mut state, &handle());
    assert!(refused(&reply) && todo.is_empty());
    assert!(!state.sessions[0].enabled);
}

#[test]
fn disabling_clears_the_edges() {
    let mut state = enabled();
    pump_wayland_events(&mut state, crossing());
    let (reply, todo) = InputCapture::disable(&mut state, &handle());
    assert_eq!(reply.response, 0);
    assert_eq!(show(todo), "[Wayland(Disarm)]");
    assert!(!state.sessions[0].enabled);
    assert_eq!(state.sessions[0].activation_id, 0);
    let (reply, todo) = InputCapture::disable(&mut state, &"/no".to_owned());
    assert!(refused(&reply) && todo.is_empty());
}

#[test]
fn the_event_stream_carries_the_activation_number() {
    let mut state = enabled();
    state.next_activation = 40;
    let todo = pump_wayland_events(&mut state, crossing());
    assert_eq!(
        show(&todo),
        "[Eis { to: EisHandle { id: 5 }, cmd: StartEmulating { sequence: 40 } }, \
         Wayland(AttachEis(EisHandle { id: 5 })), \
         Signal(Activated { session: \"/session/1\", activation_id: 40, barrier_id: 7, \
         cursor: (At { steps: 25344, exact: true }, At { steps: 5120, exact: true }) })]"
    );
    assert_eq!(state.sessions[0].activation_id, 40);
    let Some(Effect::Signal(signal)) = todo.last() else { panic!("no signal") };
    assert_eq!(
        show(signal.options()),
        "[(\"activation_id\", U32(40)), (\"barrier_id\", U32(7)), (\"cursor_position\", \
         Point { x: At { steps: 25344, exact: true }, y: At { steps: 5120, exact: true } })]"
    );
}

#[test]
fn a_second_crossing_starts_no_run() {
    let mut state = enabled();
    pump_wayland_events(&mut state, crossing());
    assert!(pump_wayland_events(&mut state, crossing()).is_empty());
    assert_eq!(state.sessions[0].activation_id, 1);
    // The number is used up all the same.
    assert_eq!(state.next_activation, 3);
}

#[test]
fn crossings_nobody_watches_are_dropped() {
    let mut state = created();
    assert!(pump_wayland_events(&mut state, crossing()).is_empty());
    assert_eq!(state.next_activation, 1);
    assert_eq!(state.session_for_barrier(7), None);
    assert_eq!(enabled().session_for_barrier(7), Some(handle()));
    assert_eq!(enabled().session_for_barrier(8), None);
    let unknown = "/no".to_owned();
    assert!(activate(&mut state, &unknown, 7, origin()).is_empty());
    assert!(activate(&mut state, &handle(), 7, origin()).is_empty());
}

#[test]
fn a_session_without_a_connection_is_told_all_the_same() {
    let mut state = enabled();
    state.sessions[0].eis = None;
    let todo = activate(&mut state, &handle(), 7, origin());
    assert_eq!(todo.len(), 1);
    assert!(matches!(todo[0], Effect::Signal(_)));
}

#[test]
fn deactivating_undoes_activating() {
    let mut state = enabled();
    activate(&mut state, &handle(), 7, origin());
    let todo = deactivate(&mut state, &handle(), origin());
    assert_eq!(
        show(&todo),
        "[Eis { to: EisHandle { id: 5 }, cmd: StopEmulating }, \
         Signal(Deactivated { session: \"/session/1\", activation_id: 1, \
         cursor: Some((At { steps: 0, exact: true }, At { steps: 0, exact: true })) })]"
    );
    assert_eq!(state.sessions[0].activation_id, 0);
    assert!(state.sessions[0].enabled);
    assert!(deactivate(&mut state, &handle(), origin()).is_empty());
    assert!(deactivate(&mut state, &"/no".to_owned(), origin()).is_empty());
}

#[test]
fn the_pointer_is_unlocked_before_barriers_are_armed() {
    let mut state = enabled();
    pump_wayland_events(&mut state, crossing());
    let options = vec![(
        "cursor_position".to_owned(),
        DictValue::Point { x: Coord::of_pixel(1), y: Coord::of_pixel(0) },
    )];
    let (reply, todo) = InputCapture::release(&mut state, &handle(), &options);
    assert_eq!(reply.response, 0);
    assert_eq!(
        show(todo),
        show(vec![
            Effect::Eis { to: EIS, cmd: niri_input_portal::eis_server::EisCommand::StopEmulating },
            Effect::Wayland(WaylandCmd::EndCapture {
                cursor_hint: Some((Coord::of_pixel(1), Coord::of_pixel(0)))
            }),
            Effect::Wayland(WaylandCmd::Arm(vec![barrier()])),
        ])
    );
    assert_eq!(state.sessions[0].activation_id, 0);
}

#[test]
fn releasing_a_disabled_session_arms_nothing() {
    let mut state = created();
    let (reply, todo) = InputCapture::release(&mut state, &handle(), &Vec::new());
    assert_eq!(reply.response, 0);
    assert_eq!(show(todo), "[Wayland(EndCapture { cursor_hint: None })]");
    let (reply, todo) = InputCapture::release(&mut state, &"/no".to_owned(), &Vec::new());
    assert!(refused(&reply) && todo.is_empty());
}

#[test]
fn a_lost_capture_is_told_and_rearmed() {
    let mut state = enabled();
    assert!(pump_wayland_events(&mut state, WaylandEvent::CaptureLost).is_empty());
    pump_wayland_events(&mut state, crossing());
    let todo = pump_wayland_events(&mut state, WaylandEvent::CaptureLost);
    assert_eq!(todo.len(), 3);
    assert!(matches!(todo[0], Effect::Eis { .. }));
    assert!(matches!(todo[1], Effect::Signal(_)));
    assert_eq!(show(&todo[2]), show(Effect::Wayland(WaylandCmd::Arm(vec![barrier()]))));
    assert_eq!(state.sessions[0].activation_id, 0);
}

#[test]
fn a_forced_release_keeps_the_barriers() {
    let mut state = enabled();
    let (text, todo) = Control::force_release(&mut state);
    assert_eq!(text, "no capture was active; barriers left as they were");
    assert_eq!(show(todo), "[Wayland(EndCapture { cursor_hint: None })]");
    pump_wayland_events(&mut state, crossing());
    let (text, todo) = Control::force_release(&mut state);
    assert_eq!(text, "released 1 capture(s)");
    assert_eq!(
        show(todo),
        "[Eis { to: EisHandle { id: 5 }, cmd: StopEmulating }, \
         Wayland(EndCapture { cursor_hint: None }), \
         Signal(Deactivated { session: \"/session/1\", activation_id: 0, cursor: None })]"
    );
    assert!(state.sessions[0].enabled);
    assert_eq!(state.sessions[0].activation_id, 0);
}

#[test]
fn a_forced_release_before_the_bus_is_up_is_silent() {
    let mut state = enabled();
    pump_wayland_events(&mut state, crossing());
    state.connected = false;
    let (_, todo) = Control::force_release(&mut state);
    assert_eq!(todo.len(), 2);
}

#[test]
fn disarming_clears_the_edges_too() {
    let mut state = enabled();
    let (text, todo) = Control::disarm(&mut state);
    assert_eq!(text, "released 0 capture(s) and disarmed all barriers");
    assert_eq!(show(todo), "[Wayland(EndCapture { cursor_hint: None }), Wayland(Disarm)]");
}

#[test]
fn disarmed_edges_stay_clear_until_a_client_enables() {
    let mut state = enabled();
    pump_wayland_events(&mut state, crossing());
    Control::disarm(&mut state);
    assert!(!state.sessions[0].enabled);
    assert_eq!(state.sessions[0].barriers, vec![barrier()]);
    let (reply, todo) = InputCapture::release(&mut state, &handle(), &Vec::new());
    assert_eq!(reply.response, 0);
    assert!(!show(todo).contains("Arm("));
    assert!(pump_wayland_events(&mut state, WaylandEvent::CaptureLost).is_empty());
    assert!(pump_wayland_events(&mut state, crossing()).is_empty());
    let (reply, todo) = InputCapture::enable(&mut state, &handle());
    assert_eq!(reply.response, 0);
    assert_eq!(show(todo), show(vec![Effect::Wayland(WaylandCmd::Arm(vec![barrier()]))]));
}

#[test]
fn a_dead_connection_releases_the_capture() {
    let mut state = enabled();
    assert!(handle_eis_closed(&mut state, &handle()).is_empty());
    pump_wayland_events(&mut state, crossing());
    assert!(handle_eis_closed(&mut state, &"/session/2".to_owned()).is_empty());
    assert_eq!(handle_eis_closed(&mut state, &handle()).len(), 3);
    assert_eq!(state.sessions[0].activation_id, 0);
}

#[test]
fn every_session_hears_of_new_outputs() {
    let mut state = created();
    let second = "/session/2".to_owned();
    InputCapture::create(&mut state, &second, &"b".to_owned(), 3, true, Vec::new());
    assert_eq!(state.session_handles(), vec![handle(), second]);
    let todo = pump_wayland_events(&mut state, WaylandEvent::OutputsChanged);
    assert_eq!(
        show(todo),
        "[Signal(ZonesChanged { session: \"/session/1\" }), \
         Signal(ZonesChanged { session: \"/session/2\" })]"
    );
}

#[test]
fn events_before_the_bus_is_up_are_dropped() {
    let mut state = enabled();
    state.connected = false;
    assert!(pump_wayland_events(&mut state, crossing()).is_empty());
    assert!(pump_wayland_events(&mut state, WaylandEvent::OutputsChanged).is_empty());
    assert_eq!(state.sessions[0].activation_id, 0);
}

#[test]
fn the_status_names_every_session() {
    let empty: State<u32> = State::new();
    assert_eq!(Control::status(&empty), "no sessions");
    let mut state = enabled();
    InputCapture::create(&mut state, &"/b".to_owned(), &"b".to_owned(), 3, true, Vec::new());
    pump_wayland_events(&mut state, crossing());
    assert_eq!(
        Control::status(&state),
        "/session/1: enabled=true barriers=1 capturing=true\n\
         /b: enabled=false barriers=0 capturing=false"
    );
}

#[test]
fn closing_forgets_the_session() {
    let mut state = enabled();
    assert_eq!(SessionObject::version(), 1);
    assert_eq!(show(SessionObject::close(&mut state, &handle())), show(vec![Effect::DropEis(EIS)]));
    assert!(state.sessions.is_empty());
    assert!(SessionObject::close(&mut state, &handle()).is_empty());
}

#[test]
fn shutting_down_releases_everything() {
    let state: State<u32> = State::new();
    assert_eq!(
        show(state.release_everything()),
        "[Wayland(EndCapture { cursor_hint: None }), Wayland(Disarm)]"
    );
}
