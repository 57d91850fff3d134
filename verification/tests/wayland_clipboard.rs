use niri_input_portal::wayland::clipboard::{
    ClipboardGlobal, ClipboardState, DeviceData, DeviceEvent, OfferData, OfferTypes, SourceEvent,
};

fn show<T: std::fmt::Debug>(value: T) -> String {
    format!("{value:?}")
}

fn types(list: &[&str]) -> Vec<String> {
    list.iter().map(|t| (*t).to_owned()).collect()
}

/// A watched clipboard with one offer of two types on it.
fn with_offer() -> (DeviceData, Option<ClipboardState>) {
    let mut device = DeviceData::new();
    let mut clipboard = Some(ClipboardState::bind());
    clipboard.as_mut().expect("a clipboard").watch_seat();
    device.event(&mut clipboard, DeviceEvent::DataOffer { id: 4 });
    OfferData::new(4).event(&mut clipboard, "text/plain".to_owned());
    OfferData::new(4).event(&mut clipboard, "text/html".to_owned());
    device.event(&mut clipboard, DeviceEvent::Selection { id: Some(4) });
    (device, clipboard)
}

#[test]
fn one_seat_is_watched() {
    let mut clipboard = ClipboardState::bind();
    assert_eq!(show(clipboard.watch_seat()), "[GetDevice]");
    assert!(clipboard.watch_seat().is_empty());
}

#[test]
fn offers_collect_their_types() {
    let mut offers = OfferTypes::new();
    let data = OfferData::new(1);
    data.push(&mut offers, "a/b".to_owned());
    data.push(&mut offers, "c/d".to_owned());
    assert_eq!(data.snapshot(&offers), types(&["a/b", "c/d"]));
    assert!(OfferData::new(2).snapshot(&offers).is_empty());
    let (_, clipboard) = with_offer();
    assert_eq!(
        clipboard.expect("a clipboard").mime_types(),
        types(&["text/plain", "text/html"])
    );
    assert!(ClipboardState::bind().mime_types().is_empty());
}

#[test]
fn clones_of_an_offer_share_one_list() {
    let mut offers = OfferTypes::new();
    let data = OfferData::new(1);
    let clone = data.clone();
    data.push(&mut offers, "a/b".to_owned());
    clone.push(&mut offers, "c/d".to_owned());
    data.push(&mut offers, "a/b".to_owned());
    assert_eq!(data.snapshot(&offers), types(&["a/b", "c/d", "a/b"]));
    assert_eq!(clone.snapshot(&offers), data.snapshot(&offers));
}

#[test]
fn a_late_type_is_on_the_clipboard() {
    let (mut device, mut clipboard) = with_offer();
    OfferData::new(4).event(&mut clipboard, "image/png".to_owned());
    assert_eq!(
        clipboard.as_ref().expect("a clipboard").mime_types(),
        types(&["text/plain", "text/html", "image/png"])
    );
    // Another offer's types are its own, and those of one that is gone go with it.
    device.event(&mut clipboard, DeviceEvent::DataOffer { id: 5 });
    OfferData::new(5).event(&mut clipboard, "x/y".to_owned());
    let inner = clipboard.as_ref().expect("a clipboard");
    assert_eq!(inner.mime_types().len(), 3);
    assert_eq!(inner.read(&"x/y".to_owned()), None);
    device.event(&mut clipboard, DeviceEvent::Selection { id: Some(5) });
    let inner = clipboard.as_ref().expect("a clipboard");
    assert_eq!(inner.read(&"x/y".to_owned()), Some(5));
    assert!(OfferData::new(4).snapshot(&inner.offers).is_empty());
}

#[test]
fn a_read_asks_the_offer_that_has_the_type() {
    let (_, clipboard) = with_offer();
    let clipboard = clipboard.expect("a clipboard");
    assert_eq!(clipboard.read(&"text/html".to_owned()), Some(4));
    assert_eq!(clipboard.read(&"image/png".to_owned()), None);
    assert_eq!(ClipboardState::bind().read(&"text/html".to_owned()), None);
}

#[test]
fn a_claim_is_given_up() {
    let mut clipboard = ClipboardState::bind();
    clipboard.watch_seat();
    clipboard.claim(&types(&["text/plain"]));
    assert!(clipboard.owns_selection());
    assert_eq!(
        show(clipboard.release()),
        "[SetSelection { source: None }, DestroySource { source: 0 }]"
    );
    assert!(!clipboard.owns_selection());
    assert!(clipboard.release().is_empty());
}

#[test]
fn a_new_claim_displaces_the_old_one() {
    let mut clipboard = ClipboardState::bind();
    clipboard.watch_seat();
    clipboard.claim(&types(&["text/plain"]));
    assert_eq!(
        show(clipboard.claim(&types(&["text/html"]))),
        "[CreateSource { source: 1, mime_types: [\"text/html\"] }, \
         SetSelection { source: Some(1) }, DestroySource { source: 0 }]"
    );
    // A claim of nothing is a release.
    assert_eq!(
        show(clipboard.claim(&Vec::new())),
        "[SetSelection { source: None }, DestroySource { source: 1 }]"
    );
}

#[test]
fn nothing_is_claimed_without_a_device() {
    let mut clipboard = ClipboardState::bind();
    assert!(clipboard.claim(&types(&["text/plain"])).is_empty());
    assert!(!clipboard.owns_selection());
}

#[test]
fn leaving_gives_up_claim_and_device() {
    let mut clipboard = ClipboardState::bind();
    clipboard.watch_seat();
    clipboard.claim(&types(&["text/plain"]));
    assert_eq!(
        show(clipboard.close()),
        "[SetSelection { source: None }, DestroySource { source: 0 }, DestroyDevice]"
    );
    assert!(clipboard.close().is_empty());
}

#[test]
fn a_selection_replaces_the_offer() {
    let (mut device, mut clipboard) = with_offer();
    clipboard.as_mut().expect("a clipboard").claim(&types(&["x/y"]));
    let announced = device.event(&mut clipboard, DeviceEvent::DataOffer { id: 5 });
    assert!(announced.actions.is_empty() && announced.changed.is_none());
    OfferData::new(5).event(&mut clipboard, "x/y".to_owned());
    let chosen = device.event(&mut clipboard, DeviceEvent::Selection { id: Some(5) });
    assert_eq!(show(chosen.actions), "[DestroyOffer { offer: 4 }]");
    assert_eq!(chosen.changed, Some((types(&["x/y"]), true)));
    let emptied = device.event(&mut clipboard, DeviceEvent::Selection { id: None });
    assert_eq!(show(emptied.actions), "[DestroyOffer { offer: 5 }]");
    assert_eq!(emptied.changed, Some((Vec::new(), true)));
}

#[test]
fn announced_offers_are_not_leaked() {
    let (mut device, mut clipboard) = with_offer();
    device.event(&mut clipboard, DeviceEvent::DataOffer { id: 6 });
    let again = device.event(&mut clipboard, DeviceEvent::DataOffer { id: 7 });
    assert_eq!(show(again.actions), "[DestroyOffer { offer: 6 }]");
    let other = device.event(&mut clipboard, DeviceEvent::Selection { id: None });
    assert_eq!(show(other.actions), "[DestroyOffer { offer: 7 }, DestroyOffer { offer: 4 }]");
}

#[test]
fn the_primary_selection_is_left_alone() {
    let (mut device, mut clipboard) = with_offer();
    let some = device.event(&mut clipboard, DeviceEvent::PrimarySelection { id: Some(8) });
    assert_eq!(show(some.actions), "[DestroyOffer { offer: 8 }]");
    assert!(some.changed.is_none());
    let none = device.event(&mut clipboard, DeviceEvent::PrimarySelection { id: None });
    assert!(none.actions.is_empty());
    assert_eq!(clipboard.expect("a clipboard").mime_types().len(), 2);
}

#[test]
fn a_finished_device_is_blind() {
    let (mut device, mut clipboard) = with_offer();
    device.event(&mut clipboard, DeviceEvent::Finished);
    device.event(&mut clipboard, DeviceEvent::Other);
    let clipboard = clipboard.as_mut().expect("a clipboard");
    assert!(clipboard.claim(&types(&["x/y"])).is_empty());
}

#[test]
fn only_the_current_source_is_served() {
    let mut clipboard = Some(ClipboardState::bind());
    let inner = clipboard.as_mut().expect("a clipboard");
    inner.watch_seat();
    inner.claim(&types(&["a/b"]));
    inner.claim(&types(&["c/d"]));
    let stale = ClipboardGlobal.event(&mut clipboard, 0, SourceEvent::Send);
    assert!(!stale.forward && !stale.cancelled && !stale.destroy);
    let current = ClipboardGlobal.event(&mut clipboard, 1, SourceEvent::Send);
    assert!(current.forward);
    let gone = ClipboardGlobal.event(&mut clipboard, 0, SourceEvent::Cancelled);
    assert!(!gone.cancelled && gone.destroy);
    assert!(clipboard.as_ref().expect("a clipboard").owns_selection());
    let lost = ClipboardGlobal.event(&mut clipboard, 1, SourceEvent::Cancelled);
    assert!(lost.cancelled && lost.destroy);
    assert!(!clipboard.as_ref().expect("a clipboard").owns_selection());
    let other = ClipboardGlobal.event(&mut clipboard, 1, SourceEvent::Other);
    assert!(!other.forward && !other.cancelled && !other.destroy);
}

#[test]
fn without_data_control_nothing_happens() {
    let mut device = DeviceData::new();
    let mut none = None;
    let chosen = device.event(&mut none, DeviceEvent::Selection { id: Some(1) });
    assert!(chosen.actions.is_empty() && chosen.changed.is_none());
    let cancelled = ClipboardGlobal.event(&mut none, 1, SourceEvent::Cancelled);
    assert!(!cancelled.cancelled && !cancelled.destroy);
}
