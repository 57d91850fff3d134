use niri_input_portal::portal::control::Pasted;
use niri_input_portal::portal::dict::{empty, get, get_number, insert, Dict, DictValue};
use niri_input_portal::portal::{
    announce_selection, clipboard_send, pump_wayland_events, Clipboard, Control, Effect, Fault,
    InputCapture, SessionObject, State,
};
use niri_input_portal::wayland::WaylandEvent;

fn show<T: std::fmt::Debug>(value: T) -> String {
    format!("{value:?}")
}

fn handle() -> String {
    "/session/1".to_owned()
}

fn other() -> String {
    "/session/2".to_owned()
}

/// Two sessions, the first of which asked for the clipboard.
fn state() -> State<&'static str> {
    let mut state = State::new();
    state.set_connection();
    InputCapture::create(&mut state, &handle(), &"a".to_owned(), 3, true, Vec::new());
    InputCapture::create(&mut state, &other(), &"b".to_owned(), 3, true, Vec::new());
    Clipboard::request_clipboard(&mut state, &handle());
    state
}

fn types(list: &[&str]) -> Vec<String> {
    list.iter().map(|t| (*t).to_owned()).collect()
}

fn offering(list: &[&str]) -> Dict {
    vec![("mime_types".to_owned(), DictValue::Texts(types(list)))]
}

fn denied<T>(result: Result<T, Fault>) -> bool {
    matches!(
        result,
        Err(Fault::AccessDenied(ref text)) if text == "this session has no clipboard access"
    )
}

#[test]
fn the_clipboard_is_for_those_who_asked() {
    let mut state = state();
    assert_eq!(Clipboard::version(), 1);
    assert!(state.session_has_clipboard(&handle()));
    assert!(!state.session_has_clipboard(&other()));
    Clipboard::request_clipboard(&mut state, &"/no".to_owned());
    assert!(!state.session_has_clipboard(&"/no".to_owned()));
    assert_eq!(state.clipboard_sessions(), vec![handle()]);
    assert!(denied(Clipboard::set_selection(&mut state, &other(), &offering(&["a/b"]))));
    assert!(denied(Clipboard::selection_write(&mut state, &other(), 1)));
    assert!(denied(Clipboard::selection_read(&state, &other(), &"a/b".to_owned(), 1)));
}

#[test]
fn a_session_claims_and_gives_up() {
    let mut state = state();
    let todo = Clipboard::set_selection(&mut state, &handle(), &offering(&["a/b", "c/d"]));
    assert_eq!(
        show(todo.expect("granted")),
        "[Wayland(ClipboardClaim { mime_types: [\"a/b\", \"c/d\"] })]"
    );
    assert!(state.owns_clipboard(&handle()));
    assert!(!state.owns_clipboard(&other()));
    clipboard_send(&mut state, "a/b".to_owned(), "pipe");
    // No types, or something that is no list of types, gives the claim up.
    let todo = Clipboard::set_selection(&mut state, &handle(), &Vec::new());
    assert_eq!(show(todo.expect("granted")), "[Wayland(ClipboardRelease)]");
    assert!(!state.owns_clipboard(&handle()));
    assert!(state.clipboard.transfers.is_empty());
}

#[test]
fn a_claim_ends_the_reads_of_the_one_before() {
    let mut state = state();
    Clipboard::set_selection(&mut state, &handle(), &offering(&["a/b"])).expect("granted");
    clipboard_send(&mut state, "a/b".to_owned(), "pipe");
    assert_eq!(state.clipboard.transfers.len(), 1);
    Clipboard::set_selection(&mut state, &handle(), &offering(&["c/d"])).expect("granted");
    assert!(state.clipboard.transfers.is_empty());
}

#[test]
fn a_paste_reaches_the_owner_and_is_answered_once() {
    let mut state = state();
    Clipboard::set_selection(&mut state, &handle(), &offering(&["a/b"])).expect("granted");
    let todo = clipboard_send(&mut state, "a/b".to_owned(), "pipe");
    assert_eq!(
        show(&todo),
        "[Signal(SelectionTransfer { session: \"/session/1\", mime_type: \"a/b\", serial: 1 })]"
    );
    let Some(Effect::Signal(signal)) = todo.last() else { panic!("no signal") };
    assert!(signal.options().is_empty());
    assert_eq!(Clipboard::selection_write(&mut state, &handle(), 1).expect("a pipe"), "pipe");
    let twice = Clipboard::selection_write(&mut state, &handle(), 1);
    assert!(matches!(
        twice,
        Err(Fault::InvalidArgs(ref text)) if text == "no clipboard transfer with serial 1"
    ));
}

#[test]
fn an_unbacked_claim_parks_the_paste() {
    let mut state = state();
    assert!(clipboard_send(&mut state, "a/b".to_owned(), "pipe").is_empty());
    assert_eq!(state.clipboard.transfers.len(), 1);
    state.connected = false;
    assert!(clipboard_send(&mut state, "a/b".to_owned(), "pipe").is_empty());
    assert_eq!(state.clipboard.transfers.len(), 1);
}

#[test]
fn a_read_goes_to_the_compositor() {
    let state = state();
    let todo = Clipboard::selection_read(&state, &handle(), &"a/b".to_owned(), 12);
    assert_eq!(
        show(todo.expect("granted")),
        "[Wayland(ClipboardRead { mime_type: \"a/b\", reply: 12 })]"
    );
    assert_eq!(Clipboard::selection_opened(&"a/b".to_owned(), Some(3)).expect("a pipe"), 3);
    let none: Result<u8, Fault> = Clipboard::selection_opened(&"a/b".to_owned(), None);
    assert!(matches!(none, Err(Fault::Failed(ref text)) if text == "nothing offers a/b"));
}

#[test]
fn a_new_selection_is_announced() {
    let mut state = state();
    let todo = pump_wayland_events(
        &mut state,
        WaylandEvent::ClipboardSelection { mime_types: types(&["a/b"]), is_ours: true },
    );
    assert_eq!(
        show(&todo),
        "[Signal(SelectionOwnerChanged { session: \"/session/1\", mime_types: [\"a/b\"], \
         session_is_owner: true })]"
    );
    let Some(Effect::Signal(signal)) = todo.last() else { panic!("no signal") };
    assert_eq!(
        show(signal.options()),
        "[(\"mime_types\", Texts([\"a/b\"])), (\"session_is_owner\", Bool(true))]"
    );
    assert_eq!(state.clipboard.mime_types, types(&["a/b"]));
    assert!(state.clipboard.owned_by_session);
    assert_eq!(announce_selection(&state, &types(&["x/y"]), false).len(), 1);
}

#[test]
fn a_cancelled_claim_is_announced_and_cleared() {
    let mut state = state();
    Clipboard::set_selection(&mut state, &handle(), &offering(&["a/b"])).expect("granted");
    state.clipboard.mime_types = types(&["a/b"]);
    state.clipboard.owned_by_session = true;
    clipboard_send(&mut state, "a/b".to_owned(), "pipe");
    let todo = pump_wayland_events(&mut state, WaylandEvent::ClipboardCancelled);
    assert_eq!(
        show(todo),
        "[Signal(SelectionOwnerChanged { session: \"/session/1\", mime_types: [\"a/b\"], \
         session_is_owner: false })]"
    );
    assert!(state.clipboard.transfers.is_empty());
    assert_eq!(state.clipboard.owner_session, None);
    assert!(!state.clipboard.owned_by_session);
}

#[test]
fn a_closed_session_leaves_no_claim() {
    let mut state = state();
    Clipboard::set_selection(&mut state, &handle(), &offering(&["a/b"])).expect("granted");
    clipboard_send(&mut state, "a/b".to_owned(), "pipe");
    assert!(SessionObject::close(&mut state, &other()).is_empty());
    assert!(state.owns_clipboard(&handle()));
    assert_eq!(show(SessionObject::close(&mut state, &handle())), "[Wayland(ClipboardRelease)]");
    assert_eq!(state.clipboard.owner_session, None);
    assert!(state.clipboard.transfers.is_empty());
}

#[test]
fn the_clipboard_status_lists_the_types() {
    let mut state = state();
    assert_eq!(
        Control::clipboard_status(&state),
        "clipboard is empty (or ext-data-control is unavailable)"
    );
    state.clipboard.mime_types = types(&["a/b", "c/d"]);
    assert_eq!(
        Control::clipboard_status(&state),
        "owner=local pending_transfers=0 types:\n  a/b\n  c/d"
    );
    clipboard_send(&mut state, "a/b".to_owned(), "pipe");
    state.clipboard.owned_by_session = true;
    assert_eq!(
        Control::clipboard_status(&state),
        "owner=session pending_transfers=1 types:\n  a/b\n  c/d"
    );
}

#[test]
fn the_control_interface_reads_text() {
    let mime = "text/plain".to_owned();
    assert_eq!(
        show(Control::clipboard_read(&mime, 4)),
        "[Wayland(ClipboardRead { mime_type: \"text/plain\", reply: 4 })]"
    );
    assert_eq!(
        Control::clipboard_pasted(&mime, Pasted::Nothing),
        "nothing on the clipboard for text/plain"
    );
    assert_eq!(
        Control::clipboard_pasted(&mime, Pasted::Content("grün".as_bytes().to_vec())),
        "grün"
    );
    assert_eq!(
        Control::clipboard_pasted(&mime, Pasted::Content(b"a\xffb".to_vec())),
        "a\u{fffd}b"
    );
    assert_eq!(
        Control::clipboard_pasted(&mime, Pasted::ReadFailed("broken".to_owned())),
        "read failed: broken"
    );
    assert_eq!(
        Control::clipboard_pasted(&mime, Pasted::TaskFailed("gone".to_owned())),
        "read task failed: gone"
    );
}

#[test]
fn the_control_interface_claims() {
    let mut state = state();
    let (text, todo) = Control::clipboard_claim(&mut state, types(&["a/b", "c/d"]));
    assert_eq!(text, "claimed the clipboard for a/b, c/d");
    assert_eq!(show(todo), "[Wayland(ClipboardClaim { mime_types: [\"a/b\", \"c/d\"] })]");
    assert_eq!(state.clipboard.owner_session, None);
    let (text, todo) = Control::clipboard_claim(&mut state, Vec::new());
    assert_eq!(text, "released the clipboard claim");
    assert_eq!(show(todo), "[Wayland(ClipboardRelease)]");
}

#[test]
fn an_unbacked_claim_takes_the_clipboard_from_its_session() {
    let mut state = state();
    Clipboard::set_selection(&mut state, &handle(), &offering(&["a/b"])).expect("granted");
    clipboard_send(&mut state, "a/b".to_owned(), "first");
    Control::clipboard_claim(&mut state, types(&["c/d"]));
    assert!(!state.owns_clipboard(&handle()));
    assert!(state.clipboard.transfers.is_empty() && state.clipboard.order.is_empty());
    // A paste is parked, and nobody is asked to answer it.
    assert!(clipboard_send(&mut state, "c/d".to_owned(), "second").is_empty());
    assert_eq!(state.clipboard.transfers.get(&2), Some(&"second"));
    // The claim does not go with the session that had the one before.
    let todo = show(SessionObject::close(&mut state, &handle()));
    assert!(!todo.contains("ClipboardRelease"));
    assert_eq!(state.clipboard.transfers.len(), 1);
}

#[test]
fn a_name_stands_for_one_value() {
    let mut dict = empty();
    insert(&mut dict, "a", DictValue::U32(1));
    insert(&mut dict, "b", DictValue::U32(2));
    insert(&mut dict, "a", DictValue::U32(3));
    assert_eq!(dict.len(), 2);
    assert_eq!(get_number(&dict, "a"), Some(3));
    assert_eq!(get_number(&dict, "b"), Some(2));
    assert!(get(&dict, "c").is_none());
    insert(&mut dict, "b", DictValue::Bool(true));
    assert_eq!(get_number(&dict, "b"), None);
    assert!(matches!(get(&dict, "b"), Some(DictValue::Bool(true))));
}
