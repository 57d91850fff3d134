//! Barrier surfaces: where they go, and what becomes of them.

use crate::portal::Barrier;
use crate::wayland::outcomes::a_surface_is_found_by_its_number;
use crate::wayland::state::{
    action_if, strip_of, surface_at, Action, Anchor, AppState, AppView, BarrierSurface, OutputInfo,
};
use crate::wayland::{
    corner_fits, host, off_every_edge, on_an_edge, place, placed_is_sound, placed_on, runs_down,
    Edge, PlacedBarrier, WaylandEvent,
};
use vstd::prelude::*;

verus! {

/// The layout entry of an output that is fully described.
pub open spec fn layout_entry(o: OutputInfo) -> Option<(String, (i32, i32), (i32, i32))> {
    match (o.name, o.logical_position, o.logical_size) {
        (Some(name), Some(at), Some(size)) => Some((name, at, size)),
        _ => None,
    }
}

/// The layout that some outputs make: the fully described ones, in order.
pub open spec fn layout_of(outputs: Seq<OutputInfo>) -> Seq<(String, (i32, i32), (i32, i32))>
    decreases outputs.len(),
{
    if outputs.len() == 0 {
        Seq::empty()
    } else {
        match layout_entry(outputs.last()) {
            Some(entry) => layout_of(outputs.drop_last()).push(entry),
            None => layout_of(outputs.drop_last()),
        }
    }
}

/// Current output layout as `(name, logical position, logical size)`.
pub fn layout(outputs: &Vec<OutputInfo>) -> (r: Vec<(String, (i32, i32), (i32, i32))>)
    ensures
        r@ == layout_of(outputs@),
{
    let mut r: Vec<(String, (i32, i32), (i32, i32))> = Vec::new();
    let mut i: usize = 0;
    assert(outputs@.take(0) =~= Seq::empty());
    assert(r@ =~= Seq::empty());
    while i < outputs.len()
        invariant
            i <= outputs.len(),
            r@ == layout_of(outputs@.take(i as int)),
        decreases outputs.len() - i,
    {
        proof {
            assert(outputs@.take(i + 1).drop_last() =~= outputs@.take(i as int));
            assert(outputs@.take(i + 1).last() == outputs@[i as int]);
        }
        let o = &outputs[i];
        if let Some(name) = &o.name {
            if let Some(at) = o.logical_position {
                if let Some(size) = o.logical_size {
                    r.push((name.clone(), at, size));
                }
            }
        }
        i += 1;
    }
    assert(outputs@.take(outputs@.len() as int) =~= outputs@);
    r
}

/// Whether an output goes by a name.
pub open spec fn is_named(o: OutputInfo, name: Seq<char>) -> bool {
    o.name matches Some(n) && n@ == name
}

/// The first output that goes by a name.
pub open spec fn named(outputs: Seq<OutputInfo>, name: Seq<char>) -> Option<int>
    decreases outputs.len(),
{
    if outputs.len() == 0 {
        None
    } else if is_named(outputs[0], name) {
        Some(0)
    } else {
        match named(outputs.drop_first(), name) {
            Some(i) => Some(i + 1),
            None => None,
        }
    }
}

/// The first output that goes by a name.
pub fn wl_output_named(outputs: &Vec<OutputInfo>, name: &String) -> (r: Option<usize>)
    ensures
        match (r, named(outputs@, name@)) {
            (Some(i), Some(k)) => i == k && i < outputs@.len(),
            (None, None) => true,
            _ => false,
        },
{
    let mut i: usize = 0;
    assert(outputs@.skip(0) =~= outputs@);
    while i < outputs.len()
        invariant
            i <= outputs.len(),
            named(outputs@, name@) == match named(outputs@.skip(i as int), name@) {
                Some(k) => Some(k + i),
                None => None,
            },
        decreases outputs.len() - i,
    {
        proof {
            assert(outputs@.skip(i as int).drop_first() =~= outputs@.skip(i + 1));
            assert(outputs@.skip(i as int)[0] == outputs@[i as int]);
        }
        if let Some(n) = &outputs[i].name {
            if *n == *name {
                return Some(i);
            }
        }
        i += 1;
    }
    None
}

proof fn named_if_any(outputs: Seq<OutputInfo>, name: Seq<char>, i: int)
    requires
        0 <= i < outputs.len(),
        is_named(outputs[i], name),
    ensures
        named(outputs, name) is Some,
    decreases outputs.len(),
{
    if !is_named(outputs[0], name) {
        assert(outputs.drop_first()[i - 1] == outputs[i]);
        named_if_any(outputs.drop_first(), name, i - 1);
    }
}

proof fn layout_names(outputs: Seq<OutputInfo>, k: int)
    requires
        0 <= k < layout_of(outputs).len(),
    ensures
        exists|i: int| 0 <= i < outputs.len() && is_named(#[trigger] outputs[i], layout_of(outputs)[k].0@),
    decreases outputs.len(),
{
    let rest = outputs.drop_last();
    if k < layout_of(rest).len() {
        layout_names(rest, k);
        let i = choose|i: int|
            0 <= i < rest.len() && is_named(#[trigger] rest[i], layout_of(rest)[k].0@);
        assert(is_named(outputs[i], layout_of(outputs)[k].0@));
    } else {
        assert(is_named(outputs[outputs.len() - 1], layout_of(outputs)[k].0@));
    }
}

proof fn host_in_range(b: Barrier, outputs: Seq<(String, (i32, i32), (i32, i32))>)
    ensures
        host(b, outputs) matches Some(i) ==> 0 <= i < outputs.len(),
    decreases outputs.len(),
{
    if outputs.len() > 0 {
        host_in_range(b, outputs.drop_first());
    }
}

/// The sides that a barrier's surface is anchored to: its edge, plus one
/// perpendicular side, which lets the margin express a barrier that covers only
/// part of that edge.
pub open spec fn anchor_of(edge: Edge) -> Anchor {
    Anchor {
        top: edge is Top || runs_down(edge),
        bottom: edge is Bottom,
        left: edge is Left || !runs_down(edge),
        right: edge is Right,
    }
}

/// The request that creates a barrier's surface.
pub open spec fn creation(s: BarrierSurface, outputs: Seq<OutputInfo>) -> Action {
    Action::CreateSurface {
        layer: s.layer,
        output: named(outputs, s.placed.output@).unwrap() as usize,
        anchor: anchor_of(s.placed.edge),
        size: s.placed.size,
        margin: (s.placed.margin.0, 0i32, 0i32, s.placed.margin.1),
        input_strip: strip_of(s.placed),
    }
}

/// The number that the surface a given count behind the next one is given.
pub open spec fn layer_number(next: u64, count: int) -> u64 {
    ((next + count) % 0x1_0000_0000_0000_0000) as u64
}

impl AppState {
    /// The barrier surface with a number.
    pub(crate) fn find_surface(&self, layer: u64) -> (r: Option<usize>)
        ensures
            match (r, surface_at(self@.surfaces, layer)) {
                (Some(i), Some(k)) => i == k && i < self@.surfaces.len(),
                (None, None) => true,
                _ => false,
            },
    {
        let mut i: usize = 0;
        assert(self.surfaces@.skip(0) =~= self.surfaces@);
        while i < self.surfaces.len()
            invariant
                i <= self.surfaces.len(),
                surface_at(self@.surfaces, layer) == match surface_at(
                    self@.surfaces.skip(i as int),
                    layer,
                ) {
                    Some(k) => Some(k + i),
                    None => None,
                },
            decreases self.surfaces.len() - i,
        {
            proof {
                assert(self@.surfaces.skip(i as int).drop_first() =~= self@.surfaces.skip(i + 1));
                assert(self@.surfaces.skip(i as int)[0] == self@.surfaces[i as int]);
            }
            if self.surfaces[i].layer == layer {
                return Some(i);
            }
            i += 1;
        }
        None
    }

    /// Let go of every barrier surface.
    pub fn disarm(&mut self) -> (r: Vec<Action>)
        ensures
            final(self)@ == old(self)@.disarmed(),
            r@ == old(self)@.disarm_actions(),
            old(self)@.wf() ==> final(self)@.wf(),
    {
        let mut r: Vec<Action> = Vec::new();
        let mut i: usize = 0;
        while i < self.surfaces.len()
            invariant
                i <= self.surfaces.len(),
                self@ == old(self)@,
                r@ == self@.disarm_actions().take(i as int),
            decreases self.surfaces.len() - i,
        {
            r.push(Action::DropSurface { layer: self.surfaces[i].layer });
            i += 1;
            assert(r@ =~= self@.disarm_actions().take(i as int));
        }
        assert(r@ =~= old(self)@.disarm_actions());
        self.surfaces.clear();
        assert(self@.surfaces =~= Seq::empty());
        r
    }

    /// Plan the surface of a placed barrier, or nothing if its output is gone.
    fn create_surface(&self, p: &PlacedBarrier, outputs: &Vec<OutputInfo>) -> (r: Option<
        (BarrierSurface, Action),
    >)
        requires
            p.sound(),
        ensures
            r is Some == named(outputs@, p.output@) is Some,
            r matches Some((s, a)) ==> s == (BarrierSurface {
                id: p.id,
                layer: self@.next_layer,
                origin: p.origin,
                placed: *p,
                drawn: false,
            }) && a == creation(s, outputs@),
    {
        match wl_output_named(outputs, &p.output) {
            Some(output) => {
                let layer: u64 = self.next_layer;
                let anchor = match p.edge {
                    Edge::Right => Anchor { top: true, bottom: false, left: false, right: true },
                    Edge::Left => Anchor { top: true, bottom: false, left: true, right: false },
                    Edge::Top => Anchor { top: true, bottom: false, left: true, right: false },
                    Edge::Bottom => Anchor { top: false, bottom: true, left: true, right: false },
                };
                let s = BarrierSurface {
                    id: p.id,
                    layer,
                    origin: p.origin,
                    placed: p.clone(),
                    drawn: false,
                };
                // The surface is BARRIER_DEPTH deep so the cursor can be put back
                // inside the screen on release, but only its outer pixel may take
                // input — otherwise it would swallow clicks well inside the
                // display.
                let a = Action::CreateSurface {
                    layer,
                    output,
                    anchor,
                    size: p.size,
                    margin: (p.margin.0, 0, 0, p.margin.1),
                    input_strip: p.input_strip(),
                };
                Some((s, a))
            },
            None => None,
        }
    }

    /// Put barrier surfaces on screen, replacing any existing set, and report
    /// the barriers that lie on no output edge. Ignored while a capture is in
    /// progress.
    pub fn arm(&mut self, barriers: &Vec<Barrier>, outputs: &Vec<OutputInfo>) -> (r: (
        Vec<Action>,
        Vec<u32>,
    ))
        requires
            old(self)@.wf(),
            old(self)@.capture is None ==> forall|i: int|
                0 <= i < barriers@.len() ==> corner_fits(
                    #[trigger] barriers@[i],
                    layout_of(outputs@),
                ),
        ensures
            old(self)@.capture is Some ==> {
                &&& final(self)@ == old(self)@
                &&& r.0@.len() == 0
                &&& r.1@.len() == 0
            },
            old(self)@.capture is None ==> armed(
                old(self)@,
                final(self)@,
                barriers@,
                outputs@,
                r.0@,
                r.1@,
            ),
            final(self)@.wf(),
    {
        if self.capture.is_some() {
            return (Vec::new(), Vec::new());
        }
        let mut r = self.disarm();
        let ghost dropped = r@;
        let lay = layout(outputs);
        let (placed, rejected) = place(barriers.as_slice(), lay.as_slice());
        let ghost on = on_an_edge(barriers@, lay@);
        let mut i: usize = 0;
        while i < placed.len()
            invariant
                i <= placed@.len(),
                lay@ == layout_of(outputs@),
                on == on_an_edge(barriers@, lay@),
                placed@.len() == on.len(),
                forall|k: int| 0 <= k < placed@.len() ==> {
                    let b = on[k];
                    placed_on(#[trigger] placed@[k], b, lay@[host(b, lay@).unwrap()])
                },
                forall|k: int| 0 <= k < on.len() ==> host(#[trigger] on[k], lay@) is Some,
                self@.surfaces.len() == i,
                self@ == (AppView {
                    surfaces: self@.surfaces,
                    next_layer: layer_number(old(self)@.next_layer, i as int),
                    ..old(self)@
                }),
                forall|k: int| 0 <= k < i ==> #[trigger] self@.surfaces[k] == (BarrierSurface {
                    id: placed@[k].id,
                    layer: layer_number(old(self)@.next_layer, k),
                    origin: placed@[k].origin,
                    placed: placed@[k],
                    drawn: false,
                }),
                forall|k: int| 0 <= k < i ==> (#[trigger] self@.surfaces[k]).placed.sound(),
                r@ =~= dropped + Seq::new(
                    i as nat,
                    |k: int| creation(self@.surfaces[k], outputs@),
                ),
            decreases placed.len() - i,
        {
            let ghost before = self@.surfaces;
            proof {
                let b = on[i as int];
                let k = host(b, lay@).unwrap();
                placed_is_sound(placed@[i as int], b, lay@[k]);
                host_in_range(b, lay@);
                layout_names(outputs@, k);
                let j = choose|j: int|
                    0 <= j < outputs@.len() && is_named(#[trigger] outputs@[j], lay@[k].0@);
                named_if_any(outputs@, lay@[k].0@, j);
            }
            match self.create_surface(&placed[i], outputs) {
                Some((s, a)) => {
                    self.surfaces.push(s);
                    self.next_layer = self.next_layer.wrapping_add(1);
                    r.push(a);
                    assert(self@.surfaces =~= before.push(s));
                    assert forall|k: int| 0 <= k < i implies #[trigger] self@.surfaces[k]
                        == before[k] by {}
                },
                None => {},
            }
            i += 1;
        }
        (r, rejected)
    }
}

/// What arming comes to: one fresh surface for each barrier that lies on an
/// output edge, in order, in place of all that were there.
pub open spec fn armed(
    before: AppView,
    after: AppView,
    barriers: Seq<Barrier>,
    outputs: Seq<OutputInfo>,
    actions: Seq<Action>,
    rejected: Seq<u32>,
) -> bool {
    let lay = layout_of(outputs);
    let on = on_an_edge(barriers, lay);
    &&& after == (AppView {
        surfaces: after.surfaces,
        next_layer: layer_number(before.next_layer, on.len() as int),
        ..before
    })
    &&& after.surfaces.len() == on.len()
    &&& forall|k: int| 0 <= k < on.len() ==> {
        let s = #[trigger] after.surfaces[k];
        &&& placed_on(s.placed, on[k], lay[host(on[k], lay).unwrap()])
        &&& s.id == on[k].id
        &&& s.layer == layer_number(before.next_layer, k)
        &&& s.origin == s.placed.origin
        &&& !s.drawn
    }
    &&& actions == before.disarm_actions() + Seq::new(
        on.len(),
        |k: int| creation(after.surfaces[k], outputs),
    )
    &&& rejected == off_every_edge(barriers, lay)
}

/// A dimension as it is drawn: at least one pixel.
pub open spec fn drawn_size(n: u32) -> i32 {
    (if n < 1 {
        1u32
    } else {
        n
    }) as i32
}

impl AppState {
    /// The compositor settled a surface's size. It is drawn once.
    pub fn configure(&self, layer: u64, width: u32, height: u32) -> (r: Option<Action>)
        ensures
            r == match surface_at(self@.surfaces, layer) {
                Some(i) => if self@.surfaces[i].drawn {
                    None
                } else {
                    Some(
                        Action::Draw {
                            layer,
                            width: drawn_size(width),
                            height: drawn_size(height),
                            stride: drawn_size(width).wrapping_mul(4),
                        },
                    )
                },
                None => None,
            },
            r matches Some(a) ==> (a matches Action::Draw { layer: l, width: w, height: h, stride }
                && {
                &&& l == layer
                &&& w >= 1 || width > i32::MAX
                &&& 1 <= width <= i32::MAX ==> w == width
                &&& 1 <= height <= i32::MAX ==> h == height
                &&& 1 <= width <= 0x1fff_ffff ==> stride == 4 * width
            }),
    {
        match self.find_surface(layer) {
            Some(index) => {
                if self.surfaces[index].drawn {
                    None
                } else {
                    let w: i32 = (if width < 1 {
                        1u32
                    } else {
                        width
                    }) as i32;
                    let h: i32 = (if height < 1 {
                        1u32
                    } else {
                        height
                    }) as i32;
                    Some(Action::Draw { layer, width: w, height: h, stride: w.wrapping_mul(4) })
                }
            },
            None => None,
        }
    }

    /// A surface was drawn; one whose buffer could not be made was not.
    pub fn drawn(&mut self, layer: u64)
        requires
            old(self)@.wf(),
        ensures
            final(self)@ == match surface_at(old(self)@.surfaces, layer) {
                Some(i) => AppView {
                    surfaces: old(self)@.surfaces.update(
                        i,
                        BarrierSurface { drawn: true, ..old(self)@.surfaces[i] },
                    ),
                    ..old(self)@
                },
                None => old(self)@,
            },
            final(self)@.surfaces.len() == old(self)@.surfaces.len(),
            forall|i: int| #![trigger final(self)@.surfaces[i]]
                0 <= i < old(self)@.surfaces.len() ==> {
                    let (s, t) = (old(self)@.surfaces[i], final(self)@.surfaces[i]);
                    &&& t == (BarrierSurface { drawn: t.drawn, ..s })
                    &&& t.drawn != s.drawn ==> t.drawn && s.layer == layer
                },
            final(self)@.wf(),
    {
        proof {
            a_surface_is_found_by_its_number(self@, layer);
        }
        match self.find_surface(layer) {
            Some(index) => {
                let ghost before = self@.surfaces;
                let mut s = self.surfaces.remove(index);
                s.drawn = true;
                self.surfaces.insert(index, s);
                assert(self@.surfaces =~= before.update(
                    index as int,
                    BarrierSurface { drawn: true, ..before[index as int] },
                ));
            },
            None => {},
        }
    }

    /// An output appeared or changed.
    pub fn output_changed(&self) -> (r: Vec<Action>)
        ensures
            r@ == seq![Action::Emit(WaylandEvent::OutputsChanged)],
    {
        let mut r: Vec<Action> = Vec::new();
        r.push(Action::Emit(WaylandEvent::OutputsChanged));
        assert(r@ =~= seq![Action::Emit(WaylandEvent::OutputsChanged)]);
        r
    }

    /// An output is gone. A capture anchored to a vanished output cannot be
    /// recovered, and leaving the grab in place would strand the pointer.
    pub fn output_destroyed(&mut self) -> (r: Vec<Action>)
        requires
            old(self)@.wf(),
        ensures
            final(self)@ == old(self)@.ended().disarmed(),
            r@ == old(self)@.end_actions(None) + old(self)@.disarm_actions()
                + seq![Action::Emit(WaylandEvent::OutputsChanged)],
            final(self)@.capture is None,
            final(self)@.surfaces.len() == 0,
            r@.last() == Action::Emit(WaylandEvent::OutputsChanged),
            final(self)@.wf(),
    {
        let mut r = self.end_capture(None);
        let ghost first = r@;
        let mut more = self.disarm();
        let ghost second = more@;
        r.append(&mut more);
        r.push(Action::Emit(WaylandEvent::OutputsChanged));
        assert(r@ =~= first + second + seq![Action::Emit(WaylandEvent::OutputsChanged)]);
        r
    }

    /// The compositor closed a surface.
    pub fn closed(&mut self, layer: u64) -> (r: Vec<Action>)
        requires
            old(self)@.wf(),
        ensures
            final(self)@ == (AppView {
                surfaces: old(self)@.surfaces.filter(|s: BarrierSurface| s.layer != layer),
                capture: if old(self)@.captures_on(layer) {
                    None
                } else {
                    old(self)@.capture
                },
                ..old(self)@
            }),
            r@ == (if old(self)@.captures_on(layer) {
                old(self)@.end_actions(None)
            } else {
                Seq::empty()
            }) + action_if(
                surface_at(old(self)@.surfaces, layer) is Some,
                Action::DropSurface { layer },
            ),
            forall|i: int|
                0 <= i < final(self)@.surfaces.len() ==> (#[trigger] final(self)@.surfaces[i]).layer != layer,
            forall|i: int|
                0 <= i < old(self)@.surfaces.len() && (#[trigger] old(self)@.surfaces[i]).layer
                    != layer ==> final(self)@.surfaces.contains(old(self)@.surfaces[i]),
            old(self)@.capture matches Some(c) ==> (final(self)@.capture is None) == (c.layer
                == layer),
            final(self)@.wf(),
    {
        let on_it = match &self.capture {
            Some(c) => c.layer == layer,
            None => false,
        };
        let mut r = if on_it {
            self.end_capture(None)
        } else {
            Vec::new()
        };
        let ghost first = r@;
        if self.find_surface(layer).is_some() {
            r.push(Action::DropSurface { layer });
        }
        assert(r@ =~= first + action_if(
            surface_at(old(self)@.surfaces, layer) is Some,
            Action::DropSurface { layer },
        ));
        let ghost keep = |s: BarrierSurface| s.layer != layer;
        let ghost all = self.surfaces@;
        let ghost state = self@;
        let mut i: usize = 0;
        let ghost mut seen: int = 0;
        proof {
            reveal(Seq::filter);
            assert(all.take(0) =~= Seq::empty());
            assert(self.surfaces@.take(0) =~= all.take(0).filter(keep));
            assert(self.surfaces@.skip(0) =~= all.skip(0));
        }
        while i < self.surfaces.len()
            invariant
                i <= self.surfaces.len(),
                0 <= seen <= all.len(),
                keep == (|s: BarrierSurface| s.layer != layer),
                self.surfaces@.take(i as int) == all.take(seen).filter(keep),
                self.surfaces@.skip(i as int) == all.skip(seen),
                self@ == (AppView { surfaces: self.surfaces@, ..state }),
                forall|k: int| 0 <= k < self.surfaces@.len() ==> (#[trigger] self.surfaces@[k]).placed.sound(),
            decreases self.surfaces.len() - i,
        {
            let ghost before = self.surfaces@;
            proof {
                reveal(Seq::filter);
                assert(before.skip(i as int).len() == all.skip(seen).len());
                assert(before.skip(i as int)[0] == before[i as int]);
                assert(all.skip(seen)[0] == all[seen]);
                assert(all.take(seen + 1).drop_last() =~= all.take(seen));
                assert(all.take(seen + 1).last() == all[seen]);
                assert(all.skip(seen).drop_first() =~= all.skip(seen + 1));
                assert(before.skip(i as int).drop_first() =~= before.skip(i + 1));
            }
            if self.surfaces[i].layer == layer {
                let _ = self.surfaces.remove(i);
                proof {
                    assert(self.surfaces@.take(i as int) =~= before.take(i as int));
                    assert(self.surfaces@.skip(i as int) =~= before.skip(i + 1));
                }
            } else {
                i += 1;
                assert(self.surfaces@.take(i as int) =~= before.take(i - 1).push(before[i - 1]));
            }
            proof {
                seen = seen + 1;
            }
        }
        proof {
            assert(self.surfaces@.skip(i as int).len() == 0);
            assert(seen == all.len());
            assert(all.take(seen) =~= all);
            assert(self.surfaces@.take(i as int) =~= self.surfaces@);
            assert forall|k: int| 0 <= k < self.surfaces@.len() implies (
            #[trigger] self.surfaces@[k]).layer != layer by {
                all.lemma_filter_pred(keep, k);
            }
            assert forall|k: int| 0 <= k < all.len() && (#[trigger] all[k]).layer
                != layer implies self.surfaces@.contains(all[k]) by {
                all.lemma_filter_contains(keep, k);
            }
        }
        r
    }
}

impl AppView {
    /// Whether the capture in progress holds a surface.
    pub open spec fn captures_on(self, layer: u64) -> bool {
        self.capture matches Some(c) && c.layer == layer
    }
}

} // verus!
