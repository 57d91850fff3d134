use niri_input_portal::coord::Coord;
use niri_input_portal::eis_server::{EisCommand, EisHandle};
use niri_input_portal::portal::Barrier;
use niri_input_portal::wayland::clipboard::ClipboardState;
use niri_input_portal::wayland::commands::Answer;
use niri_input_portal::wayland::input::{AxisScroll, PointerEvent, PointerEventKind};
use niri_input_portal::wayland::seat::Capability;
use niri_input_portal::wayland::state::{
    Action, Anchor, AppState, Modifiers, OutputInfo, KEYSYM_ESCAPE, NANOS,
};
use niri_input_portal::wayland::surfaces::{layout, wl_output_named};
use niri_input_portal::wayland::{IdleTimeout, WaylandCmd, WaylandEvent};

const EIS: EisHandle = EisHandle { id: 3 };

fn show<T: std::fmt::Debug>(value: T) -> String {
    format!("{value:?}")
}

fn px(n: i64) -> Coord {
    Coord::of_pixel(n)
}

fn outputs() -> Vec<OutputInfo> {
    vec![
        OutputInfo { name: None, logical_position: Some((0, 0)), logical_size: Some((5, 5)) },
        OutputInfo {
            name: Some("HDMI-A-1".to_owned()),
            logical_position: Some((0, 0)),
            logical_size: Some((3072, 1728)),
        },
    ]
}

fn right_edge() -> Barrier {
    Barrier { id: 11, x1: 3072, y1: 0, x2: 3072, y2: 1728 }
}

/// A client with a pointer and one barrier on the right edge.
fn armed() -> AppState {
    let mut app = AppState::new(IdleTimeout::After { secs: 15 }, true, None);
    app.pointer_acquired(true);
    app.keyboard_acquired();
    app.arm(&vec![right_edge()], &outputs());
    app
}

fn enter(surface: u64, x: i64, y: i64) -> PointerEvent {
    PointerEvent { surface, position: (px(x), px(y)), kind: PointerEventKind::Enter { serial: 77 } }
}

/// The same, after the pointer crossed 900 pixels down.
fn capturing() -> AppState {
    let mut app = armed();
    app.pointer_frame(&vec![enter(0, 63, 900)], 1000);
    app
}

fn sent(cmds: &[EisCommand]) -> String {
    let list: Vec<Action> = cmds.iter().map(|cmd| Action::Send { to: EIS, cmd: *cmd }).collect();
    show(list)
}

#[test]
fn outputs_without_a_full_description_are_left_out() {
    let lay = layout(&outputs());
    assert_eq!(lay, vec![("HDMI-A-1".to_owned(), (0, 0), (3072, 1728))]);
    assert_eq!(wl_output_named(&outputs(), &"HDMI-A-1".to_owned()), Some(1));
    assert_eq!(wl_output_named(&outputs(), &"DP-1".to_owned()), None);
}

#[test]
fn arming_puts_a_surface_on_the_edge() {
    let mut app = AppState::new(IdleTimeout::Never, true, None);
    let off = Barrier { id: 12, x1: 5, y1: 0, x2: 5, y2: 9 };
    let (actions, rejected) = app.arm(&vec![off, right_edge()], &outputs());
    assert_eq!(rejected, vec![12]);
    assert_eq!(
        show(actions),
        show(vec![Action::CreateSurface {
            layer: 0,
            output: 1,
            anchor: Anchor { top: true, bottom: false, left: false, right: true },
            size: (64, 1728),
            margin: (0, 0, 0, 0),
            input_strip: (63, 0, 1, 1728),
        }])
    );
    // Arming again replaces the set.
    let (actions, _) = app.arm(&vec![right_edge()], &outputs());
    assert!(matches!(actions[0], Action::DropSurface { layer: 0 }));
    assert!(matches!(actions[1], Action::CreateSurface { layer: 1, .. }));
    assert_eq!(app.surfaces.len(), 1);
}

#[test]
fn a_surface_is_drawn_once() {
    let mut app = armed();
    assert_eq!(
        show(app.configure(0, 64, 1728)),
        show(Some(Action::Draw { layer: 0, width: 64, height: 1728, stride: 256 }))
    );
    assert_eq!(
        show(app.configure(0, 0, 0)),
        show(Some(Action::Draw { layer: 0, width: 1, height: 1, stride: 4 }))
    );
    assert!(app.configure(5, 64, 1728).is_none());
    app.drawn(0);
    assert!(app.configure(0, 64, 1728).is_none());
}

#[test]
fn a_crossing_locks_before_it_tells() {
    let mut app = armed();
    let actions = app.pointer_frame(&vec![enter(0, 63, 900)], 1000);
    assert_eq!(
        show(actions),
        show(vec![
            Action::LockPointer { layer: 0 },
            Action::SetKeyboardFocus { layer: 0, exclusive: true },
            Action::SetInputRegion { layer: 0, strip: None },
            Action::Commit { layer: 0 },
            Action::ClearCursor { serial: 77 },
            Action::Emit(WaylandEvent::Activated {
                barrier_id: 11,
                position: (px(3071), px(900)),
            }),
        ])
    );
    let capture = app.capture.as_ref().expect("a capture");
    assert_eq!(capture.entry_along, px(900));
    assert_eq!(capture.last_input, 1000);
}

#[test]
fn a_crossing_needs_a_pointer_that_can_be_locked() {
    let mut blind = AppState::new(IdleTimeout::Never, true, None);
    blind.arm(&vec![right_edge()], &outputs());
    assert!(blind.begin_capture(0, (px(3071), px(1)), 0).is_empty());
    let mut loose = AppState::new(IdleTimeout::Never, false, None);
    loose.pointer_acquired(true);
    loose.arm(&vec![right_edge()], &outputs());
    assert!(loose.begin_capture(0, (px(3071), px(1)), 0).is_empty());
    assert!(loose.capture.is_none());
}

#[test]
fn entering_another_surface_only_notes_the_serial() {
    let mut app = armed();
    assert!(app.pointer_frame(&vec![enter(9, 0, 0)], 0).is_empty());
    assert_eq!(app.last_enter_serial, 77);
    assert!(app.capture.is_none());
}

#[test]
fn a_second_crossing_changes_nothing() {
    let mut app = capturing();
    assert!(app.pointer_frame(&vec![enter(0, 63, 5)], 2000).is_empty());
    assert_eq!(app.capture.as_ref().expect("a capture").entry_along, px(900));
}

#[test]
fn nothing_is_lost_before_the_handover() {
    let mut app = capturing();
    assert!(app.relative_pointer_motion(1, 2, 1001).is_empty());
    assert!(app.press_key(30, 0x61, 1002).is_empty());
    let flushed = app.attach_eis(EIS);
    assert_eq!(
        show(flushed),
        sent(&[
            EisCommand::Motion { dx: 1, dy: 2 },
            EisCommand::Frame,
            EisCommand::Key { keycode: 30, press: true },
            EisCommand::Frame,
            EisCommand::Frame,
        ])
    );
    // From here on everything goes straight through.
    assert_eq!(
        show(app.release_key(30, 1003)),
        sent(&[EisCommand::Key { keycode: 30, press: false }, EisCommand::Frame])
    );
    assert!(app.attach_eis(EIS).is_empty());
}

#[test]
fn a_handover_without_a_capture_is_dropped() {
    let mut app = armed();
    assert!(app.attach_eis(EIS).is_empty());
    assert!(app.capture.is_none());
}

#[test]
fn input_stays_local_without_a_capture() {
    let mut app = armed();
    let press = PointerEvent {
        surface: 0,
        position: (px(0), px(0)),
        kind: PointerEventKind::Press { button: 272 },
    };
    assert!(app.pointer_frame(&vec![press], 5).is_empty());
    assert!(app.relative_pointer_motion(1, 1, 5).is_empty());
    assert!(app.press_key(30, 0x61, 5).is_empty());
    assert!(app.repeat_key().is_empty());
}

#[test]
fn buttons_and_counts() {
    let mut app = capturing();
    app.attach_eis(EIS);
    let at = (px(0), px(0));
    let events = vec![
        PointerEvent { surface: 0, position: at, kind: PointerEventKind::Press { button: 272 } },
        PointerEvent { surface: 0, position: at, kind: PointerEventKind::Motion },
        PointerEvent { surface: 0, position: at, kind: PointerEventKind::Leave },
        PointerEvent { surface: 0, position: at, kind: PointerEventKind::Release { button: 272 } },
    ];
    assert_eq!(
        show(app.pointer_frame(&events, 2000)),
        sent(&[
            EisCommand::Button { button: 272, press: true },
            EisCommand::Frame,
            EisCommand::Button { button: 272, press: false },
            EisCommand::Frame,
        ])
    );
    let capture = app.capture.as_ref().expect("a capture");
    assert_eq!((capture.motions, capture.keys, capture.buttons, capture.scrolls), (0, 0, 2, 0));
    assert_eq!(capture.last_input, 2000);
    let ended = app.end_capture(None);
    assert_eq!(
        show(ended.last()),
        show(Some(Action::DropCapture {
            layer: 0,
            barrier_id: 11,
            motions: 0,
            keys: 0,
            buttons: 2,
            scrolls: 0,
        }))
    );
}

fn axis(absolute: f64, discrete: i32, value120: i32, stop: bool) -> AxisScroll {
    AxisScroll {
        absolute: absolute.to_bits(),
        narrowed: (absolute as f32).to_bits(),
        discrete,
        value120,
        stop,
    }
}

fn scroll(horizontal: AxisScroll, vertical: AxisScroll) -> String {
    let mut app = capturing();
    app.attach_eis(EIS);
    let event = PointerEvent {
        surface: 0,
        position: (px(0), px(0)),
        kind: PointerEventKind::Axis { horizontal, vertical },
    };
    show(app.pointer_frame(&vec![event], 9))
}

#[test]
fn high_resolution_wheels_take_precedence() {
    assert_eq!(
        scroll(axis(0.0, 0, 0, false), axis(15.0, 1, 60, false)),
        sent(&[
            EisCommand::ScrollDiscrete { dx: 0, dy: 60 },
            EisCommand::Scroll { dx: 0, dy: 15.0f32.to_bits() },
            EisCommand::Frame,
        ])
    );
}

#[test]
fn legacy_clicks_are_scaled() {
    assert_eq!(
        scroll(axis(0.0, 2, 0, false), axis(0.0, -1, 0, false)),
        sent(&[EisCommand::ScrollDiscrete { dx: 240, dy: -120 }, EisCommand::Frame])
    );
}

#[test]
fn a_scroll_that_stops_says_so_first() {
    assert_eq!(
        scroll(axis(-0.0, 0, 0, true), axis(2.5, 0, 0, false)),
        sent(&[
            EisCommand::ScrollStop,
            EisCommand::Scroll { dx: (-0.0f32).to_bits(), dy: 2.5f32.to_bits() },
            EisCommand::Frame,
        ])
    );
    assert_eq!(
        scroll(axis(-0.0, 0, 0, false), axis(0.0, 0, 0, false)),
        sent(&[EisCommand::Frame])
    );
}

fn ending(layer: u64, x: i64, y: Coord) -> Vec<Action> {
    vec![
        Action::SetCursorHint { x: px(x), y },
        Action::Commit { layer },
        Action::DestroyLock,
        Action::SetKeyboardFocus { layer, exclusive: false },
        Action::SetInputRegion { layer, strip: Some((63, 0, 1, 1728)) },
        Action::Commit { layer },
        Action::ClearCursor { serial: 77 },
        Action::DropCapture { layer, barrier_id: 11, motions: 0, keys: 0, buttons: 0, scrolls: 0 },
    ]
}

#[test]
fn the_cursor_comes_back_where_it_crossed() {
    let mut app = capturing();
    assert_eq!(show(app.end_capture(None)), show(ending(0, 55, px(900))));
    assert!(app.capture.is_none());
    assert!(app.end_capture(None).is_empty());
}

#[test]
fn a_usable_hint_is_followed() {
    let mut app = capturing();
    let hint = (px(3040), Coord::At { steps: 256 * 12 + 128, exact: true });
    assert_eq!(show(app.end_capture(Some(hint))), show(ending(0, 55, hint.1)));
}

#[test]
fn a_hint_off_the_surface_is_ignored() {
    // A constant that some clients send on every release.
    let mut app = capturing();
    assert_eq!(show(app.end_capture(Some((px(1), px(0))))), show(ending(0, 55, px(900))));
    let app = capturing();
    let capture = app.capture.as_ref().expect("a capture");
    assert_eq!(capture.usable_hint((px(3007), px(5))), None);
    assert_eq!(capture.usable_hint((px(3008), px(5))), Some(px(5)));
    assert_eq!(capture.usable_hint((px(3072), px(1728))), Some(px(1728)));
    assert_eq!(capture.usable_hint((px(3072), Coord::At { steps: 1728 * 256, exact: false })), None);
    assert_eq!(capture.usable_hint((Coord::NotANumber, px(5))), Some(px(5)));
}

#[test]
fn a_quiet_capture_is_released() {
    let mut app = capturing();
    assert!(app.check_watchdog(1000 + 15 * NANOS - 1).is_empty());
    assert!(app.capture.is_some());
    let actions = app.check_watchdog(1000 + 15 * NANOS);
    let mut expected = ending(0, 55, px(900));
    expected.push(Action::Emit(WaylandEvent::CaptureLost));
    assert_eq!(show(actions), show(expected));
    assert!(app.capture.is_none());
    assert!(app.check_watchdog(u128::MAX).is_empty());
}

#[test]
fn frames_do_not_feed_the_watchdog() {
    let mut app = capturing();
    app.forward(EisCommand::Frame, 14 * NANOS);
    app.forward(EisCommand::ScrollStop, 14 * NANOS);
    assert!(!app.check_watchdog(1000 + 15 * NANOS).is_empty());
}

#[test]
fn input_feeds_the_watchdog() {
    let mut app = capturing();
    app.relative_pointer_motion(1, 1, 14 * NANOS);
    assert!(app.check_watchdog(1000 + 15 * NANOS).is_empty());
    assert!(!app.check_watchdog(29 * NANOS).is_empty());
}

#[test]
fn a_watchdog_that_is_off_never_fires() {
    let mut app = capturing();
    app.idle_timeout = IdleTimeout::Never;
    assert!(app.check_watchdog(u128::MAX).is_empty());
    assert!(app.capture.is_some());
}

#[test]
fn the_escape_keys_release() {
    let mut app = capturing();
    app.attach_eis(EIS);
    app.update_modifiers(Modifiers { ctrl: true, alt: false });
    assert!(!app.is_panic_key(KEYSYM_ESCAPE));
    app.update_modifiers(Modifiers { ctrl: true, alt: true });
    assert!(app.is_panic_key(KEYSYM_ESCAPE));
    assert!(!app.is_panic_key(0x61));
    let actions = app.press_key(1, KEYSYM_ESCAPE, 5000);
    assert!(matches!(actions.last(), Some(Action::Emit(WaylandEvent::CaptureLost))));
    assert!(app.capture.is_none());
    // With nothing captured the combination means nothing.
    assert!(app.press_key(1, KEYSYM_ESCAPE, 5001).is_empty());
}

#[test]
fn a_dropped_lock_loses_the_capture() {
    let mut app = capturing();
    let actions = app.unlocked();
    assert_eq!(actions.len(), 9);
    assert!(app.capture.is_none());
    assert!(app.unlocked().is_empty());
}

#[test]
fn pointer_and_keyboard_are_held_while_capturing() {
    let mut app = armed();
    let (mut locks, mut grabs): (i32, i32) = (0, 0);
    let mut steps = app.pointer_frame(&vec![enter(0, 63, 1), enter(0, 63, 2)], 0);
    steps.extend(app.end_capture(None));
    steps.extend(app.end_capture(None));
    steps.extend(app.pointer_frame(&vec![enter(0, 63, 3)], 0));
    for step in &steps {
        match step {
            Action::LockPointer { .. } => locks += 1,
            Action::DestroyLock => locks -= 1,
            Action::SetKeyboardFocus { exclusive, .. } => grabs += if *exclusive { 1 } else { -1 },
            _ => {}
        }
        assert!(locks == 0 || locks == 1);
    }
    assert_eq!((locks, grabs), (1, 1));
    assert!(app.capture.is_some());
}

#[test]
fn arming_waits_for_the_capture_to_end() {
    let mut app = capturing();
    let (actions, rejected) = app.arm(&Vec::new(), &outputs());
    assert!(actions.is_empty() && rejected.is_empty());
    assert_eq!(app.surfaces.len(), 1);
}

#[test]
fn a_vanished_output_takes_capture_and_surfaces_along() {
    let mut app = capturing();
    let actions = app.output_destroyed();
    let mut expected = ending(0, 55, px(900));
    expected.push(Action::DropSurface { layer: 0 });
    expected.push(Action::Emit(WaylandEvent::OutputsChanged));
    assert_eq!(show(actions), show(expected));
    assert!(app.surfaces.is_empty() && app.capture.is_none());
    assert_eq!(show(app.output_changed()), show(vec![Action::Emit(WaylandEvent::OutputsChanged)]));
}

#[test]
fn a_closed_surface_ends_its_capture() {
    let mut app = capturing();
    assert!(app.closed(4).is_empty());
    let actions = app.closed(0);
    let mut expected = ending(0, 55, px(900));
    expected.push(Action::DropSurface { layer: 0 });
    assert_eq!(show(actions), show(expected));
    assert!(app.surfaces.is_empty());
}

#[test]
fn the_first_of_each_device_is_taken() {
    let mut app = AppState::new(IdleTimeout::Never, true, Some(ClipboardState::bind()));
    assert_eq!(show(app.new_capability(Capability::Pointer)), "[AcquirePointer]");
    assert_eq!(show(app.new_capability(Capability::Keyboard)), "[AcquireKeyboard, WatchSeat]");
    assert!(app.new_capability(Capability::Other).is_empty());
    app.pointer_acquired(false);
    app.keyboard_acquired();
    assert!(app.new_capability(Capability::Pointer).is_empty());
    assert!(app.new_capability(Capability::Keyboard).is_empty());
    assert_eq!(show(app.remove_capability(Capability::Keyboard)), "[ReleaseKeyboard]");
    assert_eq!(show(app.remove_capability(Capability::Pointer)), "[ReleasePointer]");
    assert!(app.remove_capability(Capability::Pointer).is_empty());
}

#[test]
fn losing_the_pointer_ends_the_capture() {
    let mut app = capturing();
    let actions = app.remove_capability(Capability::Pointer);
    let mut expected = ending(0, 55, px(900));
    expected.push(Action::ReleasePointer);
    expected.push(Action::DestroyRelativePointer);
    assert_eq!(show(actions), show(expected));
    assert!(!app.pointer && !app.relative_pointer);
}

#[test]
fn commands_are_carried_out() {
    let mut app = AppState::new(IdleTimeout::Never, true, Some(ClipboardState::bind()));
    app.pointer_acquired(true);
    let off = Barrier { id: 12, x1: 5, y1: 0, x2: 5, y2: 9 };
    let armed = app.command(WaylandCmd::Arm(vec![off, right_edge()]), &outputs());
    assert_eq!(armed.actions.len(), 1);
    assert_eq!(armed.rejected, vec![12]);
    app.pointer_frame(&vec![enter(0, 63, 900)], 0);
    let attached = app.command(WaylandCmd::AttachEis(EIS), &outputs());
    assert!(attached.actions.is_empty());
    let ended = app.command(WaylandCmd::EndCapture { cursor_hint: None }, &outputs());
    assert_eq!(show(ended.actions), show(ending(0, 55, px(900))));
    let disarmed = app.command(WaylandCmd::Disarm, &outputs());
    assert_eq!(show(disarmed.actions), show(vec![Action::DropSurface { layer: 0 }]));
    assert!(!app.exit);
    app.command(WaylandCmd::Shutdown, &outputs());
    assert!(app.exit);
}

#[test]
fn shutting_down_gives_a_capture_back() {
    let mut app = capturing();
    assert_eq!(show(app.shut_down()), show(ending(0, 55, px(900))));
    assert!(app.exit && app.capture.is_none());
    assert_eq!(app.surfaces.len(), 1);
    assert!(armed().shut_down().is_empty());
}

#[test]
fn clipboard_commands_are_carried_out() {
    let mut app = AppState::new(IdleTimeout::Never, true, Some(ClipboardState::bind()));
    let clipboard = app.clipboard.as_mut().expect("a clipboard");
    clipboard.watch_seat();
    let types = vec!["text/plain".to_owned()];
    let claim = app.command(WaylandCmd::ClipboardClaim { mime_types: types.clone() }, &outputs());
    assert_eq!(
        show(claim.clipboard),
        "[CreateSource { source: 0, mime_types: [\"text/plain\"] }, SetSelection { source: Some(0) }]"
    );
    let read = app.command(
        WaylandCmd::ClipboardRead { mime_type: "text/plain".to_owned(), reply: 8 },
        &outputs(),
    );
    assert!(matches!(read.answer, Answer::Content { reply: 8, offer: None, .. }));
    let listed = app.command(WaylandCmd::ClipboardMimeTypes { reply: 9 }, &outputs());
    assert!(matches!(listed.answer, Answer::Types { reply: 9, ref mime_types } if mime_types.is_empty()));
    let release = app.command(WaylandCmd::ClipboardRelease, &outputs());
    assert_eq!(show(release.clipboard), "[SetSelection { source: None }, DestroySource { source: 0 }]");

    let mut bare = AppState::new(IdleTimeout::Never, true, None);
    let claim = bare.command(WaylandCmd::ClipboardClaim { mime_types: types.clone() }, &outputs());
    assert!(claim.clipboard.is_empty());
    assert_eq!(
        show(bare.selection_changed(types, true)),
        "ClipboardSelection { mime_types: [\"text/plain\"], is_ours: true }"
    );
    assert!(matches!(bare.selection_cancelled(), WaylandEvent::ClipboardCancelled));
}
