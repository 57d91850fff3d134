//! Where barriers go, said of lines, outputs and pixels.

use crate::portal::Barrier;
use crate::wayland::outcomes::disarming_lets_go_of_every_surface;
use crate::wayland::state::{Action, Anchor, AppView, BarrierSurface, OutputInfo};
use crate::wayland::surfaces::{armed, creation, drawn_size, layer_number, layout_of, named};
use crate::wayland::{
    corner_fits, edge_on, host, off_every_edge, on_an_edge, placed_on, Edge, PlacedBarrier,
};
use vstd::prelude::*;

verus! {

/// Whether a pixel row or column lies on the span between two ends.
pub open spec fn between(a: i32, b: i32, n: int) -> bool {
    (a <= n && n < b) || (b <= n && n < a)
}

/// Whether the span between two ends and one of a length from a start have a pixel
/// in common.
pub open spec fn spans_meet(a: i32, b: i32, start: i32, len: i32) -> bool {
    &&& a != b
    &&& 0 < len
    &&& start < a || start < b
    &&& a < start + len || b < start + len
}

/// Whether a line runs along an edge of a rectangle, for at least a pixel of it.
pub open spec fn touches(b: Barrier, at: (i32, i32), size: (i32, i32)) -> bool {
    ||| b.x1 == b.x2 && (b.x1 == at.0 || b.x1 == at.0 + size.0) && spans_meet(
        b.y1,
        b.y2,
        at.1,
        size.1,
    )
    ||| b.y1 == b.y2 && (b.y1 == at.1 || b.y1 == at.1 + size.1) && spans_meet(
        b.x1,
        b.x2,
        at.0,
        size.0,
    )
}

/// Whether a line runs along an edge of some output.
pub open spec fn touches_any(
    b: Barrier,
    outputs: Seq<(String, (i32, i32), (i32, i32))>,
) -> bool {
    exists|i: int| 0 <= i < outputs.len() && touches(b, (#[trigger] outputs[i]).1, outputs[i].2)
}

/// A barrier belongs to the first output whose edge it runs along, and to none if it
/// runs along no output's edge.
pub proof fn a_barrier_belongs_to_the_first_output_it_touches(
    b: Barrier,
    outputs: Seq<(String, (i32, i32), (i32, i32))>,
)
    ensures
        match host(b, outputs) {
            Some(i) => {
                &&& 0 <= i < outputs.len()
                &&& touches(b, outputs[i].1, outputs[i].2)
                &&& forall|j: int|
                    0 <= j < i ==> !touches(b, (#[trigger] outputs[j]).1, outputs[j].2)
            },
            None => !touches_any(b, outputs),
        },
    decreases outputs.len(),
{
    if outputs.len() > 0 {
        assert((edge_on(b, outputs[0].1, outputs[0].2) is Some) == touches(
            b,
            outputs[0].1,
            outputs[0].2,
        ));
        let rest = outputs.drop_first();
        a_barrier_belongs_to_the_first_output_it_touches(b, rest);
        if edge_on(b, outputs[0].1, outputs[0].2) is None {
            match host(b, rest) {
                Some(k) => {
                    assert(rest[k] == outputs[k + 1]);
                    assert forall|j: int| 0 <= j < k + 1 implies !touches(
                        b,
                        (#[trigger] outputs[j]).1,
                        outputs[j].2,
                    ) by {
                        if j > 0 {
                            assert(rest[j - 1] == outputs[j]);
                        }
                    }
                },
                None => {
                    if touches_any(b, outputs) {
                        let i = choose|i: int|
                            0 <= i < outputs.len() && touches(
                                b,
                                (#[trigger] outputs[i]).1,
                                outputs[i].2,
                            );
                        assert(rest[i - 1] == outputs[i]);
                        assert(touches_any(b, rest));
                    }
                },
            }
        }
    }
}

/// A placed barrier covers, along its edge, exactly the pixels that the line and the
/// output have in common; it reaches sixty-four pixels into the output from the
/// edge that the line runs along, and no further out.
pub proof fn a_placed_barrier_covers_what_line_and_output_share(
    p: PlacedBarrier,
    b: Barrier,
    name: String,
    at: (i32, i32),
    size: (i32, i32),
    n: int,
)
    requires
        placed_on(p, b, (name, at, size)),
        p.edge is Right ==> i32::MIN <= at.0 + size.0 - 64,
        p.edge is Bottom ==> i32::MIN <= at.1 + size.1 - 64,
    ensures
        p.id == b.id,
        p.output == name,
        match p.edge {
            Edge::Left => b.x1 == b.x2 && b.x1 == at.0 && p.origin.0 == b.x1,
            Edge::Right => b.x1 == b.x2 && b.x1 == at.0 + size.0 && p.origin.0 + 64 == b.x1,
            Edge::Top => b.y1 == b.y2 && b.y1 == at.1 && p.origin.1 == b.y1,
            Edge::Bottom => b.y1 == b.y2 && b.y1 == at.1 + size.1 && p.origin.1 + 64 == b.y1,
        },
        p.edge is Left || p.edge is Right ==> {
            &&& p.size.0 == 64
            &&& 0 < p.size.1
            &&& (p.origin.1 <= n < p.origin.1 + p.size.1) == (between(b.y1, b.y2, n) && at.1 <= n
                < at.1 + size.1)
            &&& p.margin.0 == p.origin.1 - at.1
            &&& p.margin.1 == 0
        },
        p.edge is Top || p.edge is Bottom ==> {
            &&& p.size.1 == 64
            &&& 0 < p.size.0
            &&& (p.origin.0 <= n < p.origin.0 + p.size.0) == (between(b.x1, b.x2, n) && at.0 <= n
                < at.0 + size.0)
            &&& p.margin.1 == p.origin.0 - at.0
            &&& p.margin.0 == 0
        },
{
}

/// Where the compositor puts the top-left corner of a surface on an output of some
/// size, for an anchor to one of two opposite sides each and a margin to the top,
/// right, bottom and left.
pub open spec fn corner_on_output(
    anchor: Anchor,
    margin: (i32, i32, i32, i32),
    size: (u32, u32),
    output: (i32, i32),
) -> (int, int) {
    (
        if anchor.left {
            margin.3 as int
        } else {
            output.0 - margin.1 - size.0
        },
        if anchor.top {
            margin.0 as int
        } else {
            output.1 - margin.2 - size.1
        },
    )
}

/// A barrier's surface is pinned to the side of the output that its edge names and
/// not to the opposite one; and anchor, margin and size together put it where the
/// barrier was placed. What takes input is the outermost pixel of the edge, all
/// along the surface.
pub proof fn a_surface_is_pinned_to_its_edge(
    s: BarrierSurface,
    outputs: Seq<OutputInfo>,
    b: Barrier,
    name: String,
    at: (i32, i32),
    size: (i32, i32),
)
    requires
        placed_on(s.placed, b, (name, at, size)),
        s.placed.edge is Right ==> i32::MIN <= at.0 + size.0 - 64,
        s.placed.edge is Bottom ==> i32::MIN <= at.1 + size.1 - 64,
    ensures
        creation(s, outputs) matches Action::CreateSurface {
            layer,
            output,
            anchor,
            size: surface,
            margin,
            input_strip,
        } && {
            let corner = corner_on_output(anchor, margin, surface, size);
            let (left, top) = (at.0 + corner.0, at.1 + corner.1);
            let (x, y, w, h) = input_strip;
            &&& layer == s.layer
            &&& anchor.left != anchor.right
            &&& anchor.top != anchor.bottom
            &&& match s.placed.edge {
                Edge::Left => anchor.left && anchor.top,
                Edge::Right => anchor.right && anchor.top,
                Edge::Top => anchor.top && anchor.left,
                Edge::Bottom => anchor.bottom && anchor.left,
            }
            &&& surface == s.placed.size
            &&& left == s.placed.origin.0
            &&& top == s.placed.origin.1
            &&& match s.placed.edge {
                Edge::Left => left + x == at.0 && w == 1,
                Edge::Right => left + x + 1 == at.0 + size.0 && w == 1,
                Edge::Top => top + y == at.1 && h == 1,
                Edge::Bottom => top + y + 1 == at.1 + size.1 && h == 1,
            }
            &&& s.placed.edge is Left || s.placed.edge is Right ==> y == 0 && h == surface.1
            &&& s.placed.edge is Top || s.placed.edge is Bottom ==> x == 0 && w == surface.0
        },
{
}

/// An output is found by its name: the first that has it.
pub proof fn an_output_is_found_by_its_name(outputs: Seq<OutputInfo>, name: Seq<char>)
    ensures
        match named(outputs, name) {
            Some(i) => {
                &&& 0 <= i < outputs.len()
                &&& outputs[i].name matches Some(n) && n@ == name
                &&& forall|j: int|
                    0 <= j < i ==> !((#[trigger] outputs[j]).name matches Some(n) && n@ == name)
            },
            None => forall|j: int|
                0 <= j < outputs.len() ==> !((#[trigger] outputs[j]).name matches Some(n) && n@
                    == name),
        },
    decreases outputs.len(),
{
    if outputs.len() > 0 {
        let rest = outputs.drop_first();
        an_output_is_found_by_its_name(rest, name);
        assert forall|j: int| 1 <= j < outputs.len() implies #[trigger] outputs[j] == rest[j
            - 1] by {}
    }
}

/// The layout is made of the outputs that are fully described, each with its own
/// name, position and size, in order: one output more adds its own entry behind all
/// others if it is fully described, and nothing if it is not.
pub proof fn the_layout_is_made_of_described_outputs(outputs: Seq<OutputInfo>, o: OutputInfo)
    ensures
        layout_of(Seq::empty()).len() == 0,
        match (o.name, o.logical_position, o.logical_size) {
            (Some(name), Some(at), Some(size)) => {
                let lay = layout_of(outputs.push(o));
                &&& lay.len() == layout_of(outputs).len() + 1
                &&& lay.drop_last() == layout_of(outputs)
                &&& lay.last().0 == name
                &&& lay.last().1 == at
                &&& lay.last().2 == size
            },
            _ => layout_of(outputs.push(o)) == layout_of(outputs),
        },
{
    assert(outputs.push(o).drop_last() =~= outputs);
    assert(layout_of(outputs.push(o)).drop_last() =~= layout_of(outputs)
        || layout_of(outputs.push(o)) == layout_of(outputs));
}

/// One barrier more is either put on screen behind all others or reported behind
/// all others: put on screen if it runs along an output's edge.
pub proof fn one_barrier_more_is_placed_or_reported(
    barriers: Seq<Barrier>,
    b: Barrier,
    outputs: Seq<(String, (i32, i32), (i32, i32))>,
)
    ensures
        on_an_edge(Seq::empty(), outputs).len() == 0,
        off_every_edge(Seq::empty(), outputs).len() == 0,
        touches_any(b, outputs) ==> {
            &&& on_an_edge(barriers.push(b), outputs) == on_an_edge(barriers, outputs).push(b)
            &&& off_every_edge(barriers.push(b), outputs) == off_every_edge(barriers, outputs)
        },
        !touches_any(b, outputs) ==> {
            &&& on_an_edge(barriers.push(b), outputs) == on_an_edge(barriers, outputs)
            &&& off_every_edge(barriers.push(b), outputs) == off_every_edge(barriers, outputs).push(
                b.id,
            )
        },
{
    reveal(Seq::filter);
    a_barrier_belongs_to_the_first_output_it_touches(b, outputs);
    assert(barriers.push(b).drop_last() =~= barriers);
    if let Some(i) = host(b, outputs) {
        assert(touches(b, outputs[i].1, outputs[i].2));
        assert(touches_any(b, outputs));
    }
    let off = |x: Barrier| host(x, outputs) is None;
    assert(off_every_edge(barriers.push(b), outputs) =~= if touches_any(b, outputs) {
        off_every_edge(barriers, outputs)
    } else {
        off_every_edge(barriers, outputs).push(b.id)
    });
}

/// Every barrier that is placed runs along an output's edge.
proof fn placed_barriers_touch(
    barriers: Seq<Barrier>,
    outputs: Seq<(String, (i32, i32), (i32, i32))>,
    k: int,
)
    requires
        0 <= k < on_an_edge(barriers, outputs).len(),
    ensures
        host(on_an_edge(barriers, outputs)[k], outputs) is Some,
        barriers.contains(on_an_edge(barriers, outputs)[k]),
    decreases barriers.len(),
{
    reveal(Seq::filter);
    let rest = barriers.drop_last();
    if k < on_an_edge(rest, outputs).len() {
        placed_barriers_touch(rest, outputs, k);
        let b = on_an_edge(rest, outputs)[k];
        let i = choose|i: int| 0 <= i < rest.len() && rest[i] == b;
        assert(barriers[i] == b);
    } else {
        assert(barriers[barriers.len() - 1] == on_an_edge(barriers, outputs)[k]);
    }
}

/// What arming does: every surface that was there goes, and each barrier that runs
/// along an output's edge gets one of its own on that output, in order, under a
/// number that counts on from the last one, at the place where the barrier lies.
pub proof fn arming_puts_each_barrier_on_its_edge(
    before: AppView,
    after: AppView,
    barriers: Seq<Barrier>,
    outputs: Seq<OutputInfo>,
    actions: Seq<Action>,
    rejected: Seq<u32>,
    k: int,
)
    requires
        armed(before, after, barriers, outputs, actions, rejected),
        outputs.len() <= usize::MAX,
        0 <= k < on_an_edge(barriers, layout_of(outputs)).len(),
        corner_fits(on_an_edge(barriers, layout_of(outputs))[k], layout_of(outputs)),
        before.next_layer + k <= u64::MAX,
    ensures
        ({
            let lay = layout_of(outputs);
            let b = on_an_edge(barriers, lay)[k];
            let s = after.surfaces[k];
            let first = before.surfaces.len() as int;
            let (name, at, size) = lay[host(b, lay).unwrap()];
            &&& after.surfaces.len() == on_an_edge(barriers, lay).len()
            &&& actions.len() == first + after.surfaces.len()
            &&& rejected == off_every_edge(barriers, lay)
            &&& forall|i: int|
                0 <= i < first ==> #[trigger] actions[i] == (Action::DropSurface {
                    layer: before.surfaces[i].layer,
                })
            &&& s.id == b.id
            &&& s.layer == before.next_layer + k
            &&& s.origin == s.placed.origin
            &&& s.placed.id == b.id
            &&& !s.drawn
            &&& actions[first + k] matches Action::CreateSurface {
                layer,
                output,
                anchor,
                size: surface,
                margin,
                input_strip,
            } && {
                let corner = corner_on_output(anchor, margin, surface, size);
                &&& layer == s.layer
                &&& output < outputs.len()
                &&& outputs[output as int].name matches Some(n) && n@ == name@
                &&& anchor.left != anchor.right
                &&& anchor.top != anchor.bottom
                &&& match s.placed.edge {
                    Edge::Left => b.x1 == b.x2 && b.x1 == at.0 && anchor.left,
                    Edge::Right => b.x1 == b.x2 && b.x1 == at.0 + size.0 && anchor.right,
                    Edge::Top => b.y1 == b.y2 && b.y1 == at.1 && anchor.top,
                    Edge::Bottom => b.y1 == b.y2 && b.y1 == at.1 + size.1 && anchor.bottom,
                }
                &&& at.0 + corner.0 == s.origin.0
                &&& at.1 + corner.1 == s.origin.1
                &&& match s.placed.edge {
                    Edge::Left => s.origin.0 + input_strip.0 == b.x1 && input_strip.2 == 1,
                    Edge::Right => s.origin.0 + input_strip.0 + 1 == b.x1 && input_strip.2 == 1,
                    Edge::Top => s.origin.1 + input_strip.1 == b.y1 && input_strip.3 == 1,
                    Edge::Bottom => s.origin.1 + input_strip.1 + 1 == b.y1 && input_strip.3 == 1,
                }
            }
            &&& after == (AppView {
                surfaces: after.surfaces,
                next_layer: after.next_layer,
                ..before
            })
            &&& before.next_layer + after.surfaces.len() <= u64::MAX ==> after.next_layer
                == before.next_layer + after.surfaces.len()
        }),
{
    let lay = layout_of(outputs);
    let b = on_an_edge(barriers, lay)[k];
    let s = after.surfaces[k];
    let o = lay[host(b, lay).unwrap()];
    disarming_lets_go_of_every_surface(before);
    placed_barriers_touch(barriers, lay, k);
    a_barrier_belongs_to_the_first_output_it_touches(b, lay);
    a_surface_is_pinned_to_its_edge(s, outputs, b, o.0, o.1, o.2);
    a_placed_barrier_covers_what_line_and_output_share(s.placed, b, o.0, o.1, o.2, 0);
    an_output_is_found_by_its_name(outputs, o.0@);
    a_layout_entry_is_an_outputs(outputs, host(b, lay).unwrap());
    assert(actions[before.surfaces.len() + k] == creation(s, outputs));
}

/// Each entry of the layout has the name of one of the outputs.
proof fn a_layout_entry_is_an_outputs(outputs: Seq<OutputInfo>, k: int)
    requires
        0 <= k < layout_of(outputs).len(),
    ensures
        exists|i: int|
            0 <= i < outputs.len() && ((#[trigger] outputs[i]).name matches Some(n) && n@
                == layout_of(outputs)[k].0@),
    decreases outputs.len(),
{
    let rest = outputs.drop_last();
    if k < layout_of(rest).len() {
        a_layout_entry_is_an_outputs(rest, k);
        let i = choose|i: int|
            0 <= i < rest.len() && ((#[trigger] rest[i]).name matches Some(n) && n@ == layout_of(
                rest,
            )[k].0@);
        assert(outputs[i] == rest[i]);
    } else {
        assert(outputs[outputs.len() - 1].name matches Some(n) && n@ == layout_of(outputs)[k].0@);
    }
}

/// Surfaces are numbered one after the other, and start over behind the last number.
pub proof fn surfaces_are_numbered_on(next: u64, count: int)
    requires
        0 <= count,
    ensures
        next + count <= u64::MAX ==> layer_number(next, count) == next + count,
        u64::MAX < next + count <= 2 * u64::MAX + 1 ==> layer_number(next, count) == next + count
            - u64::MAX - 1,
{
}

/// A corner can be written unless the barrier lies on a right or bottom edge within
/// sixty-four pixels of the least coordinate.
pub proof fn a_corner_fits_unless_it_lies_at_the_very_end(
    b: Barrier,
    outputs: Seq<(String, (i32, i32), (i32, i32))>,
)
    ensures
        b.x1 >= -2147483584 && b.y1 >= -2147483584 ==> corner_fits(b, outputs),
{
    a_barrier_belongs_to_the_first_output_it_touches(b, outputs);
}

/// A surface is drawn as large as it was made, a pixel at least.
pub proof fn a_surface_is_drawn_as_large_as_it_is(n: u32)
    ensures
        n == 0 ==> drawn_size(n) == 1,
        1 <= n <= i32::MAX ==> drawn_size(n) == n,
{
}

/// Whether a corner can be written goes by the line alone: one on a right edge has to
/// keep sixty-four pixels from the least coordinate, and so has one on a bottom edge.
pub proof fn a_corner_fits_by_its_line(
    b: Barrier,
    outputs: Seq<(String, (i32, i32), (i32, i32))>,
)
    ensures
        match host(b, outputs) {
            Some(i) => {
                let (at, size) = (outputs[i].1, outputs[i].2);
                &&& b.x1 == b.x2 && b.x1 == at.0 + size.0 ==> corner_fits(b, outputs) == (b.x1
                    >= -2147483584)
                &&& b.x1 == b.x2 && b.x1 != at.0 + size.0 ==> corner_fits(b, outputs)
                &&& b.x1 != b.x2 && b.y1 == at.1 + size.1 ==> corner_fits(b, outputs) == (b.y1
                    >= -2147483584)
                &&& b.x1 != b.x2 && b.y1 != at.1 + size.1 ==> corner_fits(b, outputs)
            },
            None => corner_fits(b, outputs),
        },
{
    a_barrier_belongs_to_the_first_output_it_touches(b, outputs);
}

/// A capture is on the surface that it holds and on no other.
pub proof fn a_capture_is_on_the_surface_it_holds(v: AppView, layer: u64)
    ensures
        v.captures_on(layer) == match v.capture {
            Some(c) => c.layer == layer,
            None => false,
        },
{
}

} // verus!
