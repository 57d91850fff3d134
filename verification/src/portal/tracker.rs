//! What the compositor says is on the clipboard, and the reads of it that wait
//! for a client's answer.

use crate::text::texts;
use std::collections::{HashMap, VecDeque};
use vstd::prelude::*;

verus! {

broadcast use vstd::std_specs::hash::group_hash_axioms;

/// What the compositor says is on the clipboard right now.
///
/// Mirrored here rather than asked for on demand so that
/// `SelectionOwnerChanged` can be emitted the moment it changes, which is the
/// only way a client learns there is something new to copy across.
#[derive(Debug)]
pub struct ClipboardTracker<F> {
    pub mime_types: Vec<String>,
    /// True while the selection belongs to a portal session rather than a local
    /// application — the difference between "the remote machine copied this" and
    /// "this machine copied this".
    pub owned_by_session: bool,
    /// Reads of a session-owned selection, waiting for the client to answer with
    /// `SelectionWrite`. What is parked is the compositor's own pipe: it is
    /// handed straight to the client so the content never passes through this
    /// process, and dropping it closes it.
    pub transfers: HashMap<u32, F>,
    /// Which session claimed the selection, so `SelectionTransfer` goes to the
    /// one that can actually answer it.
    pub owner_session: Option<String>,
    /// Insertion order, so the oldest transfer is the one evicted.
    pub order: VecDeque<u32>,
    pub next_serial: u32,
}

/// The clipboard, seen from outside.
pub struct TrackerView<F> {
    pub mime_types: Seq<Seq<char>>,
    pub owned_by_session: bool,
    pub transfers: Map<u32, F>,
    pub owner_session: Option<Seq<char>>,
    pub order: Seq<u32>,
    pub next_serial: u32,
}

/// An optional text, seen from outside.
pub open spec fn text_view(s: Option<String>) -> Option<Seq<char>> {
    match s {
        Some(s) => Some(s@),
        None => None,
    }
}

impl<F> View for ClipboardTracker<F> {
    type V = TrackerView<F>;

    open spec fn view(&self) -> TrackerView<F> {
        TrackerView {
            mime_types: texts(self.mime_types@),
            owned_by_session: self.owned_by_session,
            transfers: self.transfers@,
            owner_session: text_view(self.owner_session),
            order: self.order@,
            next_serial: self.next_serial,
        }
    }
}

/// How many unanswered reads to hold before dropping the oldest.
///
/// Every parked transfer is an open pipe. A client that is doing its job answers
/// within a round trip, so a backlog means nobody is going to: local applications
/// poll the clipboard constantly — a clipboard manager alone produces a steady
/// trickle — and without a cap those pipes accumulate until the process runs out
/// of file descriptors. Dropping the pipe closes it, which the waiting
/// application reads as "no data", the honest answer when the claim is unbacked.
pub const MAX_PENDING_TRANSFERS: usize = 16;

/// The serial behind another. Zero is reserved so a missing value cannot look
/// like a valid one.
pub open spec fn serial_after(n: u32) -> u32 {
    if n == u32::MAX {
        1
    } else {
        (n + 1) as u32
    }
}

/// Holds of every serial but one.
pub open spec fn other_than(serial: u32) -> spec_fn(u32) -> bool {
    |s: u32| s != serial
}

/// A sequence without the occurrences of a serial.
pub open spec fn without(order: Seq<u32>, serial: u32) -> Seq<u32> {
    order.filter(other_than(serial))
}

impl<F> TrackerView<F> {
    /// No more reads are parked than the cap allows, and each is on the list
    /// that says which is the oldest.
    pub open spec fn wf(self) -> bool {
        &&& self.order.len() <= MAX_PENDING_TRANSFERS
        &&& forall|serial: u32| #[trigger]
            self.transfers.dom().contains(serial) ==> self.order.contains(serial)
        &&& self.transfers.dom().finite()
    }

    /// The clipboard once one more read is parked; past the cap the oldest goes.
    pub open spec fn parked(self, fd: F) -> TrackerView<F> {
        let serial = serial_after(self.next_serial);
        let order = self.order.push(serial);
        let transfers = self.transfers.insert(serial, fd);
        if order.len() > MAX_PENDING_TRANSFERS {
            TrackerView {
                next_serial: serial,
                order: order.drop_first(),
                transfers: transfers.remove(order[0]),
                ..self
            }
        } else {
            TrackerView { next_serial: serial, order, transfers, ..self }
        }
    }

    /// The clipboard once a parked read is taken.
    pub open spec fn taken(self, serial: u32) -> TrackerView<F> {
        TrackerView {
            order: without(self.order, serial),
            transfers: self.transfers.remove(serial),
            ..self
        }
    }

    /// The clipboard once every parked read is abandoned.
    pub open spec fn cleared(self) -> TrackerView<F> {
        TrackerView { order: Seq::empty(), transfers: Map::empty(), ..self }
    }

    /// The clipboard once no session claims it any more.
    pub open spec fn unclaimed(self) -> TrackerView<F> {
        TrackerView { owned_by_session: false, owner_session: None, ..self.cleared() }
    }
}

impl<F> Default for ClipboardTracker<F> {
    fn default() -> (r: Self)
        ensures
            r@ == (TrackerView {
                mime_types: Seq::empty(),
                owned_by_session: false,
                transfers: Map::<u32, F>::empty(),
                owner_session: None,
                order: Seq::empty(),
                next_serial: 0,
            }),
            r@.in_step(),
    {
        let r = ClipboardTracker {
            mime_types: Vec::new(),
            owned_by_session: false,
            transfers: HashMap::new(),
            owner_session: None,
            order: VecDeque::new(),
            next_serial: 0,
        };
        assert(texts(r.mime_types@) =~= Seq::empty());
        r
    }
}

impl<F> ClipboardTracker<F> {
    /// Park a pending read and return the serial the client answers with.
    pub fn begin_transfer(&mut self, fd: F) -> (serial: u32)
        requires
            old(self)@.wf(),
        ensures
            final(self)@ == old(self)@.parked(fd),
            serial == serial_after(old(self)@.next_serial),
            final(self)@.wf(),
    {
        let next: u32 = self.next_serial.wrapping_add(1);
        let serial: u32 = if next == 0 {
            1
        } else {
            next
        };
        self.next_serial = serial;
        let _ = self.transfers.insert(serial, fd);
        self.order.push_back(serial);
        let ghost order = self.order@;
        let ghost transfers = self.transfers@;
        assert(order.contains(serial)) by {
            assert(order[order.len() - 1] == serial);
        }
        assert forall|s: u32| #[trigger] transfers.dom().contains(s) implies order.contains(s) by {
            if s != serial {
                let i = choose|i: int| 0 <= i < old(self)@.order.len() && old(self)@.order[i] == s;
                assert(order[i] == s);
            }
        }
        if self.order.len() > MAX_PENDING_TRANSFERS {
            if let Some(stale) = self.order.pop_front() {
                // Dropping the pipe is what signals the end to the reader.
                let _ = self.transfers.remove(&stale);
                assert(self.order@ =~= order.drop_first());
                assert forall|s: u32| #[trigger]
                    self.transfers@.dom().contains(s) implies self.order@.contains(s) by {
                    let i = choose|i: int| 0 <= i < order.len() && order[i] == s;
                    assert(self.order@[i - 1] == s);
                }
            }
        }
        serial
    }

    /// Hand a parked transfer to the client that asked for it.
    pub fn take_transfer(&mut self, serial: u32) -> (r: Option<F>)
        ensures
            final(self)@ == old(self)@.taken(serial),
            r == if old(self)@.transfers.dom().contains(serial) {
                Some(old(self)@.transfers[serial])
            } else {
                None
            },
            old(self)@.wf() ==> final(self)@.wf(),
    {
        let ghost keep = other_than(serial);
        let ghost all = self.order@;
        let ghost state = self@;
        let mut i: usize = 0;
        let ghost mut seen: int = 0;
        proof {
            reveal(Seq::filter);
            assert(all.take(0) =~= Seq::empty());
            assert(self.order@.take(0) =~= all.take(0).filter(keep));
            assert(self.order@.skip(0) =~= all.skip(0));
        }
        while i < self.order.len()
            invariant
                i <= self.order@.len(),
                self.order@.len() <= all.len(),
                0 <= seen <= all.len(),
                keep == other_than(serial),
                self.order@.take(i as int) == all.take(seen).filter(keep),
                self.order@.skip(i as int) == all.skip(seen),
                self@ == (TrackerView { order: self.order@, ..state }),
            decreases self.order@.len() - i,
        {
            let ghost before = self.order@;
            proof {
                reveal(Seq::filter);
                assert(before.skip(i as int).len() == all.skip(seen).len());
                assert(before.skip(i as int)[0] == before[i as int]);
                assert(all.skip(seen)[0] == all[seen]);
                assert(all.take(seen + 1).drop_last() =~= all.take(seen));
                assert(all.take(seen + 1).last() == all[seen]);
                assert(all.skip(seen).drop_first() =~= all.skip(seen + 1));
                assert(before.skip(i as int).drop_first() =~= before.skip(i + 1));
            }
            if self.order[i] == serial {
                let _ = self.order.remove(i);
                proof {
                    assert(self.order@.take(i as int) =~= before.take(i as int));
                    assert(self.order@.skip(i as int) =~= before.skip(i + 1));
                }
            } else {
                i += 1;
                assert(self.order@.take(i as int) =~= before.take(i - 1).push(before[i - 1]));
            }
            proof {
                seen = seen + 1;
            }
        }
        proof {
            assert(self.order@.skip(i as int).len() == 0);
            assert(seen == all.len());
            assert(all.take(seen) =~= all);
            assert(self.order@.take(i as int) =~= self.order@);
            assert forall|s: u32|
                all.contains(s) && s != serial implies #[trigger] self.order@.contains(s) by {
                let j = choose|j: int| 0 <= j < all.len() && all[j] == s;
                all.lemma_filter_contains(keep, j);
            }
        }
        self.transfers.remove(&serial)
    }

    /// Abandon every parked transfer, closing their pipes.
    pub fn clear_transfers(&mut self)
        ensures
            final(self)@ == old(self)@.cleared(),
            final(self)@.wf(),
    {
        self.order.clear();
        self.transfers.clear();
    }

    /// Give up the claim and abandon whatever reads were waiting on it.
    pub fn unclaim(&mut self)
        ensures
            final(self)@ == old(self)@.unclaimed(),
            final(self)@.wf(),
    {
        self.owned_by_session = false;
        self.owner_session = None;
        self.clear_transfers();
    }
}

/// However many reads are parked, and whichever are taken, no more than the cap
/// are ever held.
pub proof fn parked_transfers_are_bounded<F>(t: TrackerView<F>)
    requires
        t.wf(),
    ensures
        t.transfers.dom().len() <= t.order.len() <= MAX_PENDING_TRANSFERS,
{
    t.order.lemma_cardinality_of_set();
    assert(t.transfers.dom().subset_of(t.order.to_set()));
    vstd::set_lib::lemma_len_subset(t.transfers.dom(), t.order.to_set());
}

/// Every operation keeps the bookkeeping in order.
pub proof fn transfers_stay_in_order<F>(t: TrackerView<F>, fd: F, serial: u32)
    requires
        t.wf(),
    ensures
        t.parked(fd).wf(),
        t.taken(serial).wf(),
        t.cleared().wf(),
        t.unclaimed().wf(),
{
    let next = serial_after(t.next_serial);
    let order = t.order.push(next);
    assert(order[order.len() - 1] == next);
    assert forall|s: u32| #[trigger] t.parked(fd).transfers.dom().contains(s) implies t.parked(
        fd,
    ).order.contains(s) by {
        if s != next {
            let i = choose|i: int| 0 <= i < t.order.len() && t.order[i] == s;
            assert(order[i] == s);
        }
        let i = choose|i: int| 0 <= i < order.len() && order[i] == s;
        if order.len() > MAX_PENDING_TRANSFERS {
            assert(order.drop_first()[i - 1] == s);
        }
    }
    let keep = other_than(serial);
    t.order.lemma_filter_len(keep);
    assert forall|s: u32| #[trigger] t.taken(serial).transfers.dom().contains(s) implies t.taken(
        serial,
    ).order.contains(s) by {
        let j = choose|j: int| 0 <= j < t.order.len() && t.order[j] == s;
        t.order.lemma_filter_contains(keep, j);
    }
}

/// No read is ever given serial zero, which is the "no such transfer" value.
pub proof fn serials_are_never_zero(n: u32)
    ensures
        serial_after(n) != 0,
{
}

/// A read just parked is there to be taken, once: taking it hands over what was
/// parked, and leaves nothing under its serial in the table or on the list.
pub proof fn a_parked_transfer_is_taken_once<F>(t: TrackerView<F>, fd: F)
    requires
        t.wf(),
        t.order.len() == MAX_PENDING_TRANSFERS ==> t.order[0] != serial_after(t.next_serial),
    ensures
        ({
            let serial = serial_after(t.next_serial);
            let p = t.parked(fd);
            &&& p.transfers.dom().contains(serial)
            &&& p.transfers[serial] == fd
            &&& !p.taken(serial).transfers.dom().contains(serial)
            &&& !p.taken(serial).order.contains(serial)
        }),
{
    let serial = serial_after(t.next_serial);
    let p = t.parked(fd);
    let keep = other_than(serial);
    if t.order.len() == MAX_PENDING_TRANSFERS {
        assert(t.order.push(serial)[0] == t.order[0]);
    }
    if without(p.order, serial).contains(serial) {
        let i = choose|i: int|
            0 <= i < p.order.filter(keep).len() && p.order.filter(keep)[i] == serial;
        p.order.lemma_filter_pred(keep, i);
    }
}

/// With the cap reached, the oldest read is the one dropped: every other read
/// stays as it was, under its own serial.
pub proof fn the_oldest_transfer_goes_first<F>(t: TrackerView<F>, fd: F)
    requires
        t.wf(),
        t.order.len() == MAX_PENDING_TRANSFERS,
    ensures
        !t.parked(fd).transfers.dom().contains(t.order[0]),
        t.parked(fd).order == t.order.drop_first().push(serial_after(t.next_serial)),
        forall|s: u32| #[trigger]
            t.transfers.dom().contains(s) && s != t.order[0] && s != serial_after(t.next_serial)
                ==> t.parked(fd).transfers.dom().contains(s) && t.parked(fd).transfers[s]
                == t.transfers[s],
{
    let serial = serial_after(t.next_serial);
    assert(t.order.push(serial)[0] == t.order[0]);
    assert(t.order.push(serial).drop_first() =~= t.order.drop_first().push(serial));
}

impl<F> TrackerView<F> {
    /// The list holds exactly the parked serials, once each and oldest first, and
    /// none that is yet to be handed out.
    pub open spec fn in_step(self) -> bool {
        &&& self.wf()
        &&& forall|serial: u32| #[trigger]
            self.order.contains(serial) ==> self.transfers.dom().contains(serial)
        &&& rises(self.order)
        &&& forall|i: int|
            0 <= i < self.order.len() ==> 0 < #[trigger] self.order[i] <= self.next_serial
    }
}

/// Each serial is greater than those before it.
pub open spec fn rises(order: Seq<u32>) -> bool {
    forall|i: int, j: int| 0 <= i < j < order.len() ==> #[trigger] order[i] < #[trigger] order[j]
}

/// The list of parked reads and their table stay in step through every operation,
/// from an empty clipboard on, until the serials come round.
pub proof fn the_list_names_the_parked_transfers<F>(t: TrackerView<F>, fd: F, serial: u32)
    requires
        t.in_step(),
    ensures
        t.next_serial < u32::MAX ==> t.parked(fd).in_step(),
        t.taken(serial).in_step(),
        t.cleared().in_step(),
        t.unclaimed().in_step(),
{
    transfers_stay_in_order(t, fd, serial);
    if t.next_serial < u32::MAX {
        let next = serial_after(t.next_serial);
        let all = t.order.push(next);
        let p = t.parked(fd);
        assert(rises(all));
        assert(p.order =~= if all.len() > MAX_PENDING_TRANSFERS {
            all.subrange(1, all.len() as int)
        } else {
            all
        });
        assert forall|s: u32| #[trigger] p.order.contains(s) implies p.transfers.dom().contains(
            s,
        ) by {
            let i = choose|i: int| 0 <= i < p.order.len() && p.order[i] == s;
            let k = if all.len() > MAX_PENDING_TRANSFERS {
                i + 1
            } else {
                i
            };
            assert(all[k] == s);
            if all.len() > MAX_PENDING_TRANSFERS {
                assert(all[0] < all[k]);
            }
            if s != next {
                assert(t.order[k] == s);
                assert(t.order.contains(s));
            }
        }
    }
    let rest = without(t.order, serial);
    kept_in_order(t.order, serial);
    assert forall|s: u32| #[trigger] rest.contains(s) implies t.taken(
        serial,
    ).transfers.dom().contains(s) by {
        let i = choose|i: int| 0 <= i < rest.len() && rest[i] == s;
        t.order.lemma_filter_pred(other_than(serial), i);
        assert(t.order.contains(rest[i]));
    }
    assert forall|i: int| 0 <= i < rest.len() implies 0 < #[trigger] rest[i] <= t.next_serial by {
        assert(t.order.contains(rest[i]));
        let j = choose|j: int| 0 <= j < t.order.len() && t.order[j] == rest[i];
        assert(0 < t.order[j] <= t.next_serial);
    }
}

/// Leaving a serial out of a rising list leaves a rising list of the others.
proof fn kept_in_order(order: Seq<u32>, serial: u32)
    requires
        rises(order),
    ensures
        rises(without(order, serial)),
        forall|i: int|
            0 <= i < without(order, serial).len() ==> order.contains(
                #[trigger] without(order, serial)[i],
            ),
    decreases order.len(),
{
    reveal(Seq::filter);
    if order.len() > 0 {
        let less = order.drop_last();
        let before = without(less, serial);
        let after = without(order, serial);
        kept_in_order(less, serial);
        assert forall|i: int| 0 <= i < before.len() implies #[trigger] before[i] < order.last()
            && order.contains(before[i]) by {
            let j = choose|j: int| 0 <= j < less.len() && less[j] == before[i];
            assert(order[j] == before[i]);
        }
        assert forall|i: int| 0 <= i < after.len() implies order.contains(#[trigger] after[i]) by {
            if i < before.len() {
                assert(after[i] == before[i]);
            } else {
                assert(order[order.len() - 1] == after[i]);
            }
        }
    }
}

/// Below the cap nothing is dropped.
pub proof fn no_transfer_is_dropped_below_the_cap<F>(t: TrackerView<F>, fd: F)
    requires
        t.wf(),
        t.order.len() < MAX_PENDING_TRANSFERS,
    ensures
        t.parked(fd).order == t.order.push(serial_after(t.next_serial)),
        t.parked(fd).transfers == t.transfers.insert(serial_after(t.next_serial), fd),
{
}

/// Serials count up from one and start over at one.
pub proof fn serials_count_up_and_start_over_at_one(n: u32)
    ensures
        n < u32::MAX ==> serial_after(n) == n + 1,
        n == u32::MAX ==> serial_after(n) == 1,
{
}

/// Parking a read keeps the types, the owner and what is said of the claim; below
/// sixteen parked reads it keeps every other read as well.
pub proof fn parking_keeps_everything_else<F>(t: TrackerView<F>, fd: F, s: u32)
    ensures
        ({
            let p = t.parked(fd);
            let serial = serial_after(t.next_serial);
            &&& p.mime_types == t.mime_types
            &&& p.owned_by_session == t.owned_by_session
            &&& p.owner_session == t.owner_session
            &&& p.next_serial == serial
            &&& t.order.len() < 16 && s != serial ==> p.transfers.dom().contains(s)
                == t.transfers.dom().contains(s)
            &&& t.order.len() < 16 && s != serial && t.transfers.dom().contains(s)
                ==> p.transfers[s] == t.transfers[s]
            &&& t.order.len() < 16 ==> p.transfers.dom().contains(serial) && p.transfers[serial]
                == fd && p.order == t.order.push(serial)
        }),
{
}

/// Taking a read leaves every other one under its own serial, and keeps all else.
pub proof fn taking_leaves_every_other_read<F>(t: TrackerView<F>, serial: u32, other: u32)
    requires
        other != serial,
    ensures
        ({
            let after = t.taken(serial);
            &&& !after.transfers.dom().contains(serial)
            &&& after.transfers.dom().contains(other) == t.transfers.dom().contains(other)
            &&& t.transfers.dom().contains(other) ==> after.transfers[other] == t.transfers[other]
            &&& t.order.contains(other) ==> after.order.contains(other)
            &&& after.mime_types == t.mime_types
            &&& after.owned_by_session == t.owned_by_session
            &&& after.owner_session == t.owner_session
            &&& after.next_serial == t.next_serial
        }),
{
    if t.order.contains(other) {
        let j = choose|j: int| 0 <= j < t.order.len() && t.order[j] == other;
        t.order.lemma_filter_contains(other_than(serial), j);
    }
}

/// Giving a claim up leaves no owner and no read, and keeps the types and serials.
pub proof fn giving_up_a_claim_keeps_the_types<F>(t: TrackerView<F>)
    ensures
        ({
            let after = t.unclaimed();
            &&& after.owner_session is None
            &&& !after.owned_by_session
            &&& after.transfers == Map::<u32, F>::empty()
            &&& after.order.len() == 0
            &&& after.mime_types == t.mime_types
            &&& after.next_serial == t.next_serial
        }),
{
}

/// The clipboard is seen as it is, field by field.
pub proof fn the_clipboard_is_seen_as_it_is<F>(t: ClipboardTracker<F>)
    ensures
        t@.mime_types == texts(t.mime_types@),
        t@.owned_by_session == t.owned_by_session,
        t@.transfers == t.transfers@,
        t@.order == t.order@,
        t@.next_serial == t.next_serial,
        match (t.owner_session, t@.owner_session) {
            (Some(owner), Some(seen)) => seen == owner@,
            (None, None) => true,
            _ => false,
        },
{
}

} // verus!
