//! Clipboard access through `ext-data-control`.
//!
//! The portal's Clipboard interface has to read and write the selection at
//! moments when this process holds no keyboard focus — the entire point is to
//! hand the clipboard to a machine that is not this one. `wl_data_device` only
//! works for the focused client and so cannot do that.
//! `ext_data_control_manager_v1` exists precisely for clipboard managers and
//! grants access without focus.
//!
//! Nothing in this module knows about D-Bus. It decides on the four operations
//! the portal needs — observe the selection, read it, claim it, answer reads of
//! what was claimed. Protocol objects are named by numbers.

use crate::counting::successor;
use crate::text::texts;
use std::collections::HashMap;
use vstd::prelude::*;

verus! {

broadcast use vstd::std_specs::hash::group_hash_axioms;

/// What the clipboard objects that carry no state of their own are tagged with.
#[derive(Debug, Clone, Copy)]
pub struct ClipboardGlobal;

/// The mime types that each offer has been said to hold.
#[derive(Debug)]
pub struct OfferTypes {
    pub lists: HashMap<u64, Vec<String>>,
}

impl View for OfferTypes {
    type V = Map<u64, Seq<Seq<char>>>;

    open spec fn view(&self) -> Map<u64, Seq<Seq<char>>> {
        self.lists@.map_values(|list: Vec<String>| texts(list@))
    }
}

/// The types that an offer has been said to hold; none if nothing was said.
pub open spec fn held(lists: Map<u64, Seq<Seq<char>>>, id: u64) -> Seq<Seq<char>> {
    if lists.dom().contains(id) {
        lists[id]
    } else {
        Seq::empty()
    }
}

/// The lists once an offer has been said to hold one more type.
pub open spec fn noted(
    lists: Map<u64, Seq<Seq<char>>>,
    id: u64,
    mime_type: Seq<char>,
) -> Map<u64, Seq<Seq<char>>> {
    lists.insert(id, held(lists, id).push(mime_type))
}

/// The lists without that of an offer that is gone, unless it is still in use.
pub open spec fn forgotten(
    lists: Map<u64, Seq<Seq<char>>>,
    gone: Option<u64>,
    in_use: Option<u64>,
) -> Map<u64, Seq<Seq<char>>> {
    match gone {
        Some(id) => if in_use == Some(id) {
            lists
        } else {
            lists.remove(id)
        },
        None => lists,
    }
}

impl OfferTypes {
    /// Nothing said of any offer.
    pub fn new() -> (r: OfferTypes)
        ensures
            r@ == Map::<u64, Seq<Seq<char>>>::empty(),
    {
        let r = OfferTypes { lists: HashMap::new() };
        assert(r@ =~= Map::empty());
        r
    }

    /// An offer was announced; nothing is said of it yet.
    fn announce(&mut self, id: u64)
        ensures
            final(self)@ == old(self)@.insert(id, Seq::empty()),
    {
        let list: Vec<String> = Vec::new();
        assert(texts(list@) =~= Seq::empty());
        let _ = self.lists.insert(id, list);
        assert(self@ =~= old(self)@.insert(id, Seq::empty()));
    }

    /// An offer is gone; its list goes with it unless it is still in use.
    fn forget(&mut self, gone: &Option<OfferData>, in_use: &Option<OfferData>)
        ensures
            final(self)@ == forgotten(old(self)@, number(*gone), number(*in_use)),
    {
        if let Some(offer) = gone {
            let kept = match in_use {
                Some(other) => other.id == offer.id,
                None => false,
            };
            if !kept {
                let _ = self.lists.remove(&offer.id);
                assert(self@ =~= old(self)@.remove(offer.id));
            }
        }
    }
}

/// Mime types accumulated from one offer's `offer` events.
///
/// They arrive as a burst of separate events before the `selection` event says
/// what the offer is for, so they are collected behind a handle that the offer
/// object itself carries. The handle can be cloned; the list is one.
#[derive(Debug, Clone, Copy, PartialEq, Eq, Structural)]
pub struct OfferData {
    pub id: u64,
}

/// The number of an offer that may not be there.
pub open spec fn number(o: Option<OfferData>) -> Option<u64> {
    match o {
        Some(o) => Some(o.id),
        None => None,
    }
}

impl OfferData {
    /// The handle of an offer.
    pub fn new(id: u64) -> (r: OfferData)
        ensures
            r.id == id,
    {
        OfferData { id }
    }

    /// Note one more type, behind those noted before.
    pub fn push(&self, offers: &mut OfferTypes, mime_type: String)
        ensures
            final(offers)@ == noted(old(offers)@, self.id, mime_type@),
    {
        let mut list = match offers.lists.remove(&self.id) {
            Some(list) => list,
            None => Vec::new(),
        };
        let ghost before = texts(list@);
        assert(before =~= held(old(offers)@, self.id));
        list.push(mime_type);
        assert(texts(list@) =~= before.push(mime_type@));
        let _ = offers.lists.insert(self.id, list);
        assert(offers@ =~= noted(old(offers)@, self.id, mime_type@));
    }

    /// The types noted so far.
    pub fn snapshot(&self, offers: &OfferTypes) -> (r: Vec<String>)
        ensures
            texts(r@) == held(offers@, self.id),
    {
        match offers.lists.get(&self.id) {
            Some(list) => {
                let r = list.clone();
                assert(r@ =~= list@);
                r
            },
            None => {
                let r: Vec<String> = Vec::new();
                assert(texts(r@) =~= Seq::empty());
                r
            },
        }
    }

    /// Take in a type that the offer is said to hold.
    pub fn event(&self, clipboard: &mut Option<ClipboardState>, mime_type: String)
        ensures
            match *old(clipboard) {
                Some(c) => *final(clipboard) matches Some(d) && d@ == (ClipboardView {
                    lists: noted(c@.lists, self.id, mime_type@),
                    ..c@
                }),
                None => *final(clipboard) is None,
            },
    {
        match clipboard.take() {
            Some(mut c) => {
                self.push(&mut c.offers, mime_type);
                *clipboard = Some(c);
            },
            None => {},
        }
    }
}

/// Per-device bookkeeping.
#[derive(Debug)]
pub struct DeviceData {
    /// An offer is announced before the `selection` event says whether it is the
    /// clipboard, the primary selection, or neither.
    pub pending: Option<OfferData>,
}

impl View for DeviceData {
    type V = Option<u64>;

    open spec fn view(&self) -> Option<u64> {
        number(self.pending)
    }
}

/// The clipboard as the compositor shows it.
#[derive(Debug)]
pub struct ClipboardState {
    /// Whether a seat's clipboard is being watched.
    pub device: bool,
    /// The clipboard offer currently on the wire, whoever owns it.
    pub offer: Option<OfferData>,
    /// What the offers have been said to hold.
    pub offers: OfferTypes,
    /// The source published while this process holds the selection.
    pub source: Option<u64>,
    /// The number that the next source is given.
    pub next_source: u64,
}

/// The clipboard, seen from outside.
pub struct ClipboardView {
    pub device: bool,
    pub offer: Option<u64>,
    pub lists: Map<u64, Seq<Seq<char>>>,
    pub source: Option<u64>,
    pub next_source: u64,
}

impl View for ClipboardState {
    type V = ClipboardView;

    open spec fn view(&self) -> ClipboardView {
        ClipboardView {
            device: self.device,
            offer: number(self.offer),
            lists: self.offers@,
            source: self.source,
            next_source: self.next_source,
        }
    }
}

/// One request to make of the compositor.
#[derive(Debug)]
pub enum ClipboardAction {
    /// Start watching a seat.
    GetDevice,
    /// Create a source that offers these types.
    CreateSource { source: u64, mime_types: Vec<String> },
    /// Make a source the selection, or empty the selection.
    SetSelection { source: Option<u64> },
    DestroySource { source: u64 },
    DestroyOffer { offer: u64 },
    DestroyDevice,
}

/// One request, seen from outside.
pub enum ActionView {
    GetDevice,
    CreateSource { source: u64, mime_types: Seq<Seq<char>> },
    SetSelection { source: Option<u64> },
    DestroySource { source: u64 },
    DestroyOffer { offer: u64 },
    DestroyDevice,
}

impl View for ClipboardAction {
    type V = ActionView;

    open spec fn view(&self) -> ActionView {
        match *self {
            ClipboardAction::GetDevice => ActionView::GetDevice,
            ClipboardAction::CreateSource { source, mime_types } => ActionView::CreateSource {
                source,
                mime_types: texts(mime_types@),
            },
            ClipboardAction::SetSelection { source } => ActionView::SetSelection { source },
            ClipboardAction::DestroySource { source } => ActionView::DestroySource { source },
            ClipboardAction::DestroyOffer { offer } => ActionView::DestroyOffer { offer },
            ClipboardAction::DestroyDevice => ActionView::DestroyDevice,
        }
    }
}

/// Requests in order, seen from outside.
pub open spec fn actions(list: Seq<ClipboardAction>) -> Seq<ActionView> {
    list.map_values(|a: ClipboardAction| a@)
}

impl ClipboardView {
    /// The types on the selection; none if there is no offer.
    pub open spec fn types(self) -> Seq<Seq<char>> {
        match self.offer {
            Some(id) => held(self.lists, id),
            None => Seq::empty(),
        }
    }

    /// The offer to ask for content of a type, if one has it.
    pub open spec fn offer_with(self, mime_type: Seq<char>) -> Option<u64> {
        match self.offer {
            Some(id) => if held(self.lists, id).contains(mime_type) {
                Some(id)
            } else {
                None
            },
            None => None,
        }
    }

    /// The clipboard once an offer, or none, takes the place of the current one.
    pub open spec fn offering(self, offer: Option<u64>) -> ClipboardView {
        ClipboardView { offer, lists: forgotten(self.lists, self.offer, offer), ..self }
    }

    /// The clipboard once the claim on it is given up.
    pub open spec fn released(self) -> ClipboardView {
        ClipboardView { source: None, ..self }
    }

    /// What giving up the claim asks of the compositor.
    pub open spec fn release_actions(self) -> Seq<ActionView> {
        match self.source {
            None => Seq::empty(),
            Some(source) => if self.device {
                seq![
                    ActionView::SetSelection { source: None },
                    ActionView::DestroySource { source },
                ]
            } else {
                seq![ActionView::DestroySource { source }]
            },
        }
    }

    /// The clipboard once it is claimed with some types.
    pub open spec fn claimed(self, types: Seq<Seq<char>>) -> ClipboardView {
        if !self.device {
            self
        } else if types.len() == 0 {
            self.released()
        } else {
            ClipboardView {
                source: Some(self.next_source),
                next_source: successor(self.next_source),
                ..self
            }
        }
    }

    /// What claiming it asks of the compositor: the new source takes the
    /// selection before the one it displaces is destroyed.
    pub open spec fn claim_actions(self, types: Seq<Seq<char>>) -> Seq<ActionView> {
        if !self.device {
            Seq::empty()
        } else if types.len() == 0 {
            self.release_actions()
        } else {
            seq![
                ActionView::CreateSource { source: self.next_source, mime_types: types },
                ActionView::SetSelection { source: Some(self.next_source) },
            ] + match self.source {
                Some(source) => seq![ActionView::DestroySource { source }],
                None => Seq::empty(),
            }
        }
    }
}

impl ClipboardState {
    /// A clipboard that nothing is known of yet.
    pub fn bind() -> (r: ClipboardState)
        ensures
            r@ == (ClipboardView {
                device: false,
                offer: None,
                lists: Map::<u64, Seq<Seq<char>>>::empty(),
                source: None,
                next_source: 0,
            }),
    {
        ClipboardState {
            device: false,
            offer: None,
            offers: OfferTypes::new(),
            source: None,
            next_source: 0,
        }
    }

    /// Start watching a seat's clipboard. Only the first seat is used: the
    /// portal has one clipboard to offer regardless of how many seats exist.
    pub fn watch_seat(&mut self) -> (r: Vec<ClipboardAction>)
        ensures
            final(self)@ == (ClipboardView { device: true, ..old(self)@ }),
            actions(r@) == if old(self)@.device {
                Seq::empty()
            } else {
                seq![ActionView::GetDevice]
            },
    {
        let mut r: Vec<ClipboardAction> = Vec::new();
        if !self.device {
            self.device = true;
            r.push(ClipboardAction::GetDevice);
        }
        assert(actions(r@) =~= if old(self)@.device {
            Seq::empty()
        } else {
            seq![ActionView::GetDevice]
        });
        r
    }

    /// Mime types on the current clipboard selection.
    pub fn mime_types(&self) -> (r: Vec<String>)
        ensures
            texts(r@) == self@.types(),
    {
        match &self.offer {
            Some(offer) => offer.snapshot(&self.offers),
            None => {
                let r: Vec<String> = Vec::new();
                assert(texts(r@) =~= Seq::empty());
                r
            },
        }
    }

    /// True while this process is the selection owner.
    pub fn owns_selection(&self) -> (r: bool)
        ensures
            r == (self@.source is Some),
    {
        self.source.is_some()
    }

    /// The offer to ask for content of a type.
    ///
    /// `None` means nothing is on the clipboard, or it is not offered in that
    /// type.
    pub fn read(&self, mime_type: &String) -> (r: Option<u64>)
        ensures
            r == self@.offer_with(mime_type@),
    {
        match &self.offer {
            Some(offer) => {
                let types = offer.snapshot(&self.offers);
                let mut i: usize = 0;
                while i < types.len()
                    invariant
                        i <= types.len(),
                        self@.offer == Some(offer.id),
                        texts(types@) == held(self@.lists, offer.id),
                        forall|j: int| 0 <= j < i ==> #[trigger] types@[j]@ != mime_type@,
                    decreases types.len() - i,
                {
                    if types[i] == *mime_type {
                        assert(texts(types@)[i as int] == mime_type@);
                        return Some(offer.id);
                    }
                    i += 1;
                }
                assert forall|j: int| 0 <= j < texts(types@).len() implies texts(types@)[j]
                    != mime_type@ by {
                    assert(texts(types@)[j] == types@[j]@);
                }
                None
            },
            None => None,
        }
    }

    /// Claim the clipboard, advertising `mime_types`.
    ///
    /// Without a device nothing can be claimed, and a claim of no types gives up
    /// the one that stands.
    pub fn claim(&mut self, mime_types: &Vec<String>) -> (r: Vec<ClipboardAction>)
        ensures
            final(self)@ == old(self)@.claimed(texts(mime_types@)),
            actions(r@) == old(self)@.claim_actions(texts(mime_types@)),
    {
        if !self.device {
            let r: Vec<ClipboardAction> = Vec::new();
            assert(actions(r@) =~= Seq::empty());
            return r;
        }
        if mime_types.len() == 0 {
            return self.release();
        }
        let source: u64 = self.next_source;
        self.next_source = source.wrapping_add(1);
        let mut r: Vec<ClipboardAction> = Vec::new();
        let types = mime_types.clone();
        assert(types@ =~= mime_types@);
        r.push(ClipboardAction::CreateSource { source, mime_types: types });
        r.push(ClipboardAction::SetSelection { source: Some(source) });
        if let Some(old_source) = self.source {
            r.push(ClipboardAction::DestroySource { source: old_source });
        }
        self.source = Some(source);
        assert(actions(r@) =~= old(self)@.claim_actions(texts(mime_types@)));
        r
    }

    /// Give up a claim made by [`Self::claim`].
    pub fn release(&mut self) -> (r: Vec<ClipboardAction>)
        ensures
            final(self)@ == old(self)@.released(),
            actions(r@) == old(self)@.release_actions(),
    {
        let mut r: Vec<ClipboardAction> = Vec::new();
        if let Some(source) = self.source {
            self.source = None;
            if self.device {
                r.push(ClipboardAction::SetSelection { source: None });
            }
            r.push(ClipboardAction::DestroySource { source });
        }
        assert(actions(r@) =~= old(self)@.release_actions());
        r
    }

    /// Replace the tracked offer, destroying whatever it displaced.
    pub fn set_offer(&mut self, offer: Option<OfferData>) -> (r: Vec<ClipboardAction>)
        ensures
            final(self)@ == old(self)@.offering(number(offer)),
            actions(r@) == displaced(old(self)@.offer),
    {
        let mut r: Vec<ClipboardAction> = Vec::new();
        if let Some(old_offer) = &self.offer {
            r.push(ClipboardAction::DestroyOffer { offer: old_offer.id });
        }
        self.offers.forget(&self.offer, &offer);
        self.offer = offer;
        assert(actions(r@) =~= displaced(old(self)@.offer));
        r
    }

    /// Give everything up on the way out: the claim first, then the device.
    pub fn close(&mut self) -> (r: Vec<ClipboardAction>)
        ensures
            final(self)@ == (ClipboardView { device: false, ..old(self)@.released() }),
            actions(r@) == old(self)@.release_actions() + if old(self)@.device {
                seq![ActionView::DestroyDevice]
            } else {
                Seq::empty()
            },
            !final(self)@.device,
            final(self)@.source is None,
            old(self)@.device ==> actions(r@).last() is DestroyDevice,
    {
        let mut r = self.release();
        if self.device {
            self.device = false;
            r.push(ClipboardAction::DestroyDevice);
        }
        assert(actions(r@) =~= old(self)@.release_actions() + if old(self)@.device {
            seq![ActionView::DestroyDevice]
        } else {
            Seq::empty()
        });
        r
    }
}

/// What the compositor says through the device.
#[derive(Debug, Clone, Copy, PartialEq, Eq, Structural)]
pub enum DeviceEvent {
    /// An offer is announced.
    DataOffer { id: u64 },
    /// This offer is the clipboard now, or nothing is.
    Selection { id: Option<u64> },
    /// This offer is the primary selection now, or nothing is.
    PrimarySelection { id: Option<u64> },
    /// The device is no longer of use.
    Finished,
    Other,
}

/// What follows from a device event.
#[derive(Debug)]
pub struct DeviceOutcome {
    pub actions: Vec<ClipboardAction>,
    /// The new types on the selection and whether they are this process's own,
    /// when the selection changed.
    pub changed: Option<(Vec<String>, bool)>,
}

/// What a clipboard that may not be there is, seen from outside.
pub open spec fn clipboard_view(c: Option<ClipboardState>) -> Option<ClipboardView> {
    match c {
        Some(c) => Some(c@),
        None => None,
    }
}

/// The offer of a clipboard that may not be there.
pub open spec fn current_offer(clipboard: Option<ClipboardState>) -> Option<u64> {
    match clipboard {
        Some(c) => c@.offer,
        None => None,
    }
}

/// The announced offer that a selection leaves behind.
pub open spec fn left_behind(id: Option<u64>, pending: Option<u64>) -> Seq<ActionView> {
    match pending {
        Some(offer) => if id == Some(offer) {
            Seq::empty()
        } else {
            seq![ActionView::DestroyOffer { offer }]
        },
        None => Seq::empty(),
    }
}

/// The offer that another displaces.
pub open spec fn displaced(current: Option<u64>) -> Seq<ActionView> {
    match current {
        Some(offer) => seq![ActionView::DestroyOffer { offer }],
        None => Seq::empty(),
    }
}

impl ClipboardView {
    /// The clipboard once an offer is announced in the place of another.
    pub open spec fn announced(self, id: u64, stale: Option<u64>) -> ClipboardView {
        ClipboardView {
            lists: forgotten(self.lists, stale, self.offer).insert(id, Seq::empty()),
            ..self
        }
    }

    /// The clipboard once an offer, or none, is the selection, with another that
    /// was announced.
    pub open spec fn selected(self, id: Option<u64>, pending: Option<u64>) -> ClipboardView {
        ClipboardView { lists: forgotten(self.lists, pending, id), ..self }.offering(id)
    }

    /// The clipboard once an offer turned out to be the primary selection. Its list
    /// goes unless the offer is announced or current still.
    pub open spec fn passed_over(self, id: Option<u64>, pending: Option<u64>) -> ClipboardView {
        if id == self.offer {
            self
        } else {
            ClipboardView { lists: forgotten(self.lists, id, pending), ..self }
        }
    }
}

impl DeviceData {
    /// Nothing announced yet.
    pub fn new() -> (r: DeviceData)
        ensures
            r@ is None,
    {
        DeviceData { pending: None }
    }

    /// Take in what the compositor says. `clipboard` is absent when it has no
    /// `ext-data-control`.
    pub fn event(
        &mut self,
        clipboard: &mut Option<ClipboardState>,
        event: DeviceEvent,
    ) -> (r: DeviceOutcome)
        ensures
            match event {
                DeviceEvent::DataOffer { id } => {
                    &&& final(self)@ == Some(id)
                    &&& clipboard_view(*final(clipboard)) == match *old(clipboard) {
                        Some(c) => Some(c@.announced(id, old(self)@)),
                        None => None,
                    }
                    &&& actions(r.actions@) == displaced(old(self)@)
                    &&& r.changed is None
                },
                DeviceEvent::Selection { id } => {
                    &&& final(self)@ is None
                    &&& actions(r.actions@) == left_behind(id, old(self)@) + displaced(
                        current_offer(*old(clipboard)),
                    )
                    &&& match *old(clipboard) {
                        Some(c) => {
                            &&& clipboard_view(*final(clipboard)) == Some(
                                c@.selected(id, old(self)@),
                            )
                            &&& r.changed matches Some((types, is_ours)) && texts(types@)
                                == c@.selected(id, old(self)@).types() && is_ours == (
                            c@.source is Some)
                        },
                        None => *final(clipboard) is None && r.changed is None,
                    }
                },
                DeviceEvent::PrimarySelection { id } => {
                    &&& final(self)@ == old(self)@
                    &&& clipboard_view(*final(clipboard)) == match *old(clipboard) {
                        Some(c) => Some(c@.passed_over(id, old(self)@)),
                        None => None,
                    }
                    &&& actions(r.actions@) == displaced(id)
                    &&& r.changed is None
                },
                DeviceEvent::Finished => {
                    &&& final(self)@ == old(self)@
                    &&& clipboard_view(*final(clipboard)) == match *old(clipboard) {
                        Some(c) => Some(ClipboardView { device: false, ..c@ }),
                        None => None,
                    }
                    &&& r.actions@.len() == 0
                    &&& r.changed is None
                },
                DeviceEvent::Other => {
                    &&& final(self)@ == old(self)@
                    &&& *final(clipboard) == *old(clipboard)
                    &&& r.actions@.len() == 0
                    &&& r.changed is None
                },
            },
            *old(clipboard) matches Some(c) ==> (event matches DeviceEvent::Selection { id } ==> (
            r.changed matches Some((types, is_ours)) && {
                &&& c@.source is Some ==> is_ours
                &&& c@.source is None ==> !is_ours
                &&& match id {
                    Some(id) => texts(types@) == held(c@.lists, id),
                    None => types@.len() == 0,
                }
                &&& *final(clipboard) matches Some(d) && d@.offer == id && d@.source == c@.source
                    && d@.device == c@.device
            })),
            !(event is Selection) ==> r.changed is None,
            clipboard_view(*final(clipboard)) is Some == clipboard_view(*old(clipboard)) is Some,
    {
        let ghost pending = self@;
        let mut r: Vec<ClipboardAction> = Vec::new();
        match event {
            DeviceEvent::DataOffer { id } => {
                // A compositor should never announce two offers without a
                // selection in between, but leaking objects if it does is worse
                // than being defensive.
                if let Some(stale) = &self.pending {
                    r.push(ClipboardAction::DestroyOffer { offer: stale.id });
                }
                match clipboard.take() {
                    Some(mut c) => {
                        c.offers.forget(&self.pending, &c.offer);
                        c.offers.announce(id);
                        *clipboard = Some(c);
                    },
                    None => {},
                }
                self.pending = Some(OfferData::new(id));
                assert(actions(r@) =~= displaced(pending));
                DeviceOutcome { actions: r, changed: None }
            },
            DeviceEvent::Selection { id } => {
                // Whatever was announced but is not this selection belongs to
                // nobody now.
                if let Some(p) = &self.pending {
                    if id != Some(p.id) {
                        r.push(ClipboardAction::DestroyOffer { offer: p.id });
                    }
                }
                let ghost front = r@;
                let offer = match id {
                    Some(id) => Some(OfferData::new(id)),
                    None => None,
                };
                match clipboard.take() {
                    None => {
                        self.pending = None;
                        assert(actions(front) + displaced(None) =~= actions(front));
                        DeviceOutcome { actions: r, changed: None }
                    },
                    Some(mut c) => {
                        let is_ours = c.owns_selection();
                        c.offers.forget(&self.pending, &offer);
                        self.pending = None;
                        let mut more = c.set_offer(offer);
                        let ghost second = more@;
                        r.append(&mut more);
                        assert(actions(r@) =~= actions(front) + actions(second));
                        let types = c.mime_types();
                        assert(texts(types@).len() == types@.len());
                        *clipboard = Some(c);
                        DeviceOutcome { actions: r, changed: Some((types, is_ours)) }
                    },
                }
            },
            DeviceEvent::PrimarySelection { id } => {
                // Middle-click paste is a local affair; the portal only deals in
                // the clipboard selection.
                if let Some(offer) = id {
                    r.push(ClipboardAction::DestroyOffer { offer });
                    match clipboard.take() {
                        Some(mut c) => {
                            let current = match &c.offer {
                                Some(o) => o.id == offer,
                                None => false,
                            };
                            if !current {
                                c.offers.forget(&Some(OfferData::new(offer)), &self.pending);
                            }
                            *clipboard = Some(c);
                        },
                        None => {},
                    }
                }
                assert(actions(r@) =~= displaced(id));
                DeviceOutcome { actions: r, changed: None }
            },
            DeviceEvent::Finished => {
                match clipboard.take() {
                    Some(mut c) => {
                        c.device = false;
                        *clipboard = Some(c);
                    },
                    None => {},
                }
                DeviceOutcome { actions: r, changed: None }
            },
            DeviceEvent::Other => DeviceOutcome { actions: r, changed: None },
        }
    }
}

/// What the compositor says through a source.
#[derive(Debug, Clone, Copy, PartialEq, Eq, Structural)]
pub enum SourceEvent {
    /// Somebody is pasting.
    Send,
    /// Another client took the selection.
    Cancelled,
    Other,
}

/// What follows from a source event.
#[derive(Debug, Clone, Copy, PartialEq, Eq, Structural)]
pub struct SourceOutcome {
    /// Pass the paste on; when unset, closing its pipe lets the reader see the
    /// end of it.
    pub forward: bool,
    /// The claim is lost.
    pub cancelled: bool,
    /// Destroy the source.
    pub destroy: bool,
}

/// Whether a source is the one that holds the selection for this process.
pub open spec fn is_current(clipboard: Option<ClipboardState>, source: u64) -> bool {
    clipboard matches Some(c) && c@.source == Some(source)
}

impl ClipboardGlobal {
    /// Take in what the compositor says through a source.
    ///
    /// A send for a source already dropped would write into a pipe nobody
    /// promised to fill, so only the current one's are passed on, and only its
    /// cancellation loses the claim.
    pub fn event(
        &self,
        clipboard: &mut Option<ClipboardState>,
        source: u64,
        event: SourceEvent,
    ) -> (r: SourceOutcome)
        ensures
            r.forward == (event is Send && is_current(*old(clipboard), source)),
            r.cancelled == (event is Cancelled && is_current(*old(clipboard), source)),
            r.destroy == (event is Cancelled && *old(clipboard) is Some),
            match *old(clipboard) {
                Some(c) => *final(clipboard) matches Some(d) && d@ == if r.cancelled {
                    c@.released()
                } else {
                    c@
                },
                None => *final(clipboard) is None,
            },
    {
        match clipboard.take() {
            None => SourceOutcome { forward: false, cancelled: false, destroy: false },
            Some(mut c) => {
                let current = c.source == Some(source);
                let cancelled = event == SourceEvent::Cancelled && current;
                if cancelled {
                    c.source = None;
                }
                *clipboard = Some(c);
                SourceOutcome {
                    forward: event == SourceEvent::Send && current,
                    cancelled,
                    destroy: event == SourceEvent::Cancelled,
                }
            },
        }
    }
}

/// A claim makes this process the owner, and giving it up undoes that: nothing
/// but the number of the next source is left of it.
pub proof fn claim_then_release(c: ClipboardView, types: Seq<Seq<char>>)
    requires
        c.device,
        types.len() > 0,
    ensures
        c.claimed(types).source is Some,
        c.claimed(types).released() == (ClipboardView {
            source: None,
            next_source: successor(c.next_source),
            ..c
        }),
        c.claimed(types).release_actions() == seq![
            ActionView::SetSelection { source: None },
            ActionView::DestroySource { source: c.next_source },
        ],
{
}

/// Claiming anew destroys the source it displaces, and never the one it creates
/// as long as numbers are not reused.
pub proof fn claim_displaces_one_source(c: ClipboardView, types: Seq<Seq<char>>)
    requires
        c.device,
        types.len() > 0,
        c.source matches Some(s) && s != c.next_source,
    ensures
        c.claim_actions(types).last() == (ActionView::DestroySource {
            source: c.source.unwrap(),
        }),
        forall|i: int|
            0 <= i < c.claim_actions(types).len() ==> #[trigger] c.claim_actions(types)[i] != (
            ActionView::DestroySource { source: c.next_source }),
{
}

/// Giving up a claim twice is giving it up once.
pub proof fn release_once(c: ClipboardView)
    ensures
        c.released().released() == c.released(),
        c.released().release_actions() == Seq::<ActionView>::empty(),
{
}

/// Clones of an offer's handle share one list: a type noted through either is
/// behind all that were noted before, through whichever handle the list is read,
/// and no other offer's list changes.
pub proof fn clones_share_one_list(
    offer: OfferData,
    clone: OfferData,
    lists: Map<u64, Seq<Seq<char>>>,
    mime_type: Seq<char>,
    other: u64,
)
    requires
        clone == offer,
        other != offer.id,
    ensures
        held(noted(lists, offer.id, mime_type), clone.id) == held(lists, clone.id).push(mime_type),
        held(noted(lists, clone.id, mime_type), offer.id) == held(lists, offer.id).push(mime_type),
        held(noted(lists, offer.id, mime_type), other) == held(lists, other),
{
}

/// A selection has the types that were noted for its offer when it was announced,
/// and a type noted for it later is on the clipboard from then on.
pub proof fn a_selection_has_the_types_of_its_offer(
    c: ClipboardView,
    id: u64,
    pending: Option<u64>,
    mime_type: Seq<char>,
)
    ensures
        ({
            let now = c.selected(Some(id), pending);
            &&& now.types() == held(c.lists, id)
            &&& ClipboardView { lists: noted(now.lists, id, mime_type), ..now }.types()
                == now.types().push(mime_type)
        }),
{
}

/// A claim with a device and some types creates one source of those types, makes it
/// the selection, and only then destroys the one that it displaces; the process owns
/// the new one from then on. Without a device nothing happens, and a claim of
/// nothing gives the claim up.
pub proof fn a_claim_is_made_before_the_old_one_goes(c: ClipboardView, types: Seq<Seq<char>>)
    ensures
        ({
            let todo = c.claim_actions(types);
            let after = c.claimed(types);
            &&& !c.device ==> todo.len() == 0 && after == c
            &&& c.device && types.len() == 0 ==> after == (ClipboardView { source: None, ..c })
            &&& c.device && types.len() == 0 ==> match c.source {
                Some(source) => todo == seq![
                    ActionView::SetSelection { source: None },
                    ActionView::DestroySource { source },
                ],
                None => todo.len() == 0,
            }
            &&& c.device && types.len() > 0 ==> {
                &&& todo[0] == (ActionView::CreateSource {
                    source: c.next_source,
                    mime_types: types,
                })
                &&& todo[1] == (ActionView::SetSelection { source: Some(c.next_source) })
                &&& match c.source {
                    Some(source) => todo.len() == 3 && todo[2] == (ActionView::DestroySource {
                        source,
                    }),
                    None => todo.len() == 2,
                }
                &&& after.source == Some(c.next_source)
                &&& c.next_source < u64::MAX ==> after.next_source == c.next_source + 1
                &&& after == (ClipboardView {
                    source: after.source,
                    next_source: after.next_source,
                    ..c
                })
            }
        }),
{
}

/// Giving up a claim empties the selection if there is a device to do it with, and
/// destroys the source; without a claim nothing happens.
pub proof fn a_claim_is_given_up_on_the_wire(c: ClipboardView)
    ensures
        c.released() == (ClipboardView { source: None, ..c }),
        match c.source {
            Some(source) => if c.device {
                c.release_actions() == seq![
                    ActionView::SetSelection { source: None },
                    ActionView::DestroySource { source },
                ]
            } else {
                c.release_actions() == seq![ActionView::DestroySource { source }]
            },
            None => c.release_actions().len() == 0,
        },
{
}

/// Content is asked of the current offer if it holds the type, and of none
/// otherwise. What it holds is what was noted for it.
pub proof fn content_is_asked_of_the_offer_that_holds_it(
    c: ClipboardView,
    mime_type: Seq<char>,
    i: int,
)
    ensures
        c.offer_with(mime_type) is Some ==> c.offer_with(mime_type) == c.offer && c.types().contains(
            mime_type,
        ),
        c.offer is None ==> c.offer_with(mime_type) is None && c.types().len() == 0,
        c.offer is Some && 0 <= i < c.types().len() && c.types()[i] == mime_type ==> c.offer_with(
            mime_type,
        ) == c.offer,
        c.offer matches Some(id) ==> (c.lists.dom().contains(id) ==> c.types() == c.lists[id]),
{
}

/// An offer that is announced holds nothing yet. The selection makes it the current
/// one with all that was noted for it; whatever was announced or current before and
/// is not it is destroyed, each once. An offer for the primary selection is
/// destroyed and changes nothing on the clipboard.
pub proof fn offers_come_and_go(
    c: ClipboardView,
    id: u64,
    other: u64,
    pending: Option<u64>,
    selected: Option<u64>,
)
    requires
        other != id,
        pending != Some(other),
        c.offer != Some(other),
    ensures
        ({
            let announced = c.announced(id, pending);
            let now = c.selected(selected, pending);
            let passed = c.passed_over(Some(id), pending);
            &&& held(announced.lists, id).len() == 0
            &&& held(announced.lists, other) == held(c.lists, other)
            &&& announced == (ClipboardView { lists: announced.lists, ..c })
            &&& now.offer == selected
            &&& selected is Some ==> now.types() == held(c.lists, selected.unwrap())
            &&& selected is None ==> now.types().len() == 0
            &&& held(now.lists, other) == held(c.lists, other)
            &&& (now.device, now.source, now.next_source) == (c.device, c.source, c.next_source)
            &&& passed.offer == c.offer
            &&& passed.types() == c.types()
            &&& pending matches Some(p) ==> held(passed.lists, p) == held(c.lists, p)
            &&& held(passed.lists, other) == held(c.lists, other)
            &&& left_behind(selected, pending) == match pending {
                Some(offer) => if selected == Some(offer) {
                    Seq::empty()
                } else {
                    seq![ActionView::DestroyOffer { offer }]
                },
                None => Seq::empty(),
            }
            &&& c.offer matches Some(offer) ==> displaced(c.offer) == seq![
                ActionView::DestroyOffer { offer },
            ]
            &&& c.offer is None ==> displaced(c.offer).len() == 0
        }),
{
}

/// The clipboard is seen as it is: the lists offer by offer, and the rest field by
/// field.
pub proof fn the_clipboard_is_seen_as_it_is(c: ClipboardState, d: DeviceData, id: u64)
    ensures
        c@.device == c.device,
        c@.source == c.source,
        c@.next_source == c.next_source,
        match (c.offer, c@.offer) {
            (Some(offer), Some(seen)) => seen == offer.id,
            (None, None) => true,
            _ => false,
        },
        c@.lists.dom().contains(id) == c.offers.lists@.dom().contains(id),
        c.offers.lists@.dom().contains(id) ==> c@.lists[id] == texts(c.offers.lists@[id]@),
        match (d.pending, d@) {
            (Some(offer), Some(seen)) => seen == offer.id,
            (None, None) => true,
            _ => false,
        },
{
}

/// Requests are seen as they are, one by one and in order.
pub proof fn requests_are_seen_as_they_are(list: Seq<ClipboardAction>)
    ensures
        actions(list).len() == list.len(),
        forall|i: int| #![trigger actions(list)[i]]
            0 <= i < list.len() ==> match (list[i], actions(list)[i]) {
                (ClipboardAction::GetDevice, ActionView::GetDevice) => true,
                (
                    ClipboardAction::CreateSource { source, mime_types },
                    ActionView::CreateSource { source: a, mime_types: b },
                ) => a == source && b == texts(mime_types@),
                (
                    ClipboardAction::SetSelection { source },
                    ActionView::SetSelection { source: seen },
                ) => seen == source,
                (
                    ClipboardAction::DestroySource { source },
                    ActionView::DestroySource { source: seen },
                ) => seen == source,
                (
                    ClipboardAction::DestroyOffer { offer },
                    ActionView::DestroyOffer { offer: seen },
                ) => seen == offer,
                (ClipboardAction::DestroyDevice, ActionView::DestroyDevice) => true,
                _ => false,
            },
{
}

/// A type noted for an offer stands behind those that were, and alone where there
/// were none; and only the source that this process holds is its current one.
pub proof fn a_type_stands_behind_those_before(
    lists: Map<u64, Seq<Seq<char>>>,
    id: u64,
    mime_type: Seq<char>,
    c: ClipboardState,
    source: u64,
)
    ensures
        lists.dom().contains(id) ==> noted(lists, id, mime_type)[id] == lists[id].push(mime_type),
        !lists.dom().contains(id) ==> noted(lists, id, mime_type)[id] == seq![mime_type],
        is_current(Some(c), source) == (c.source == Some(source)),
        !is_current(None, source),
        clipboard_view(Some(c)) == Some(c@),
        clipboard_view(None) is None,
{
}

} // verus!
