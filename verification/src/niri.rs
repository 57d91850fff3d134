//! Zone discovery from the outputs that niri reports.
//!
//! The portal's zones are expressed in the same logical coordinate space niri
//! reports, so scale and position map across without conversion.

use crate::coord::Coord;
use crate::text::{lex_le, lex_le_antisymmetric, lex_le_total, lex_le_transitive, text_le};
use vstd::prelude::*;

verus! {

/// Where an enabled output lies on the desktop. The scale is carried as the bit
/// pattern of its floating-point value.
#[derive(Debug, Clone)]
pub struct Logical {
    pub x: i32,
    pub y: i32,
    pub width: u32,
    pub height: u32,
    pub scale: u64,
    pub transform: String,
}

/// One output as niri describes it. A disabled one has no logical geometry.
#[derive(Debug, Clone)]
pub struct Output {
    pub name: String,
    pub logical: Option<Logical>,
}

/// One portal zone: width, height, x-offset, y-offset.
#[derive(Debug, Clone, Copy, PartialEq, Eq, Structural)]
pub struct Zone {
    pub width: u32,
    pub height: u32,
    pub x: i32,
    pub y: i32,
}

impl Zone {
    /// Whether a point falls inside: on or after the left and top edges, and
    /// before the right and bottom ones.
    pub open spec fn holds(self, x: Coord, y: Coord) -> bool {
        &&& x is At
        &&& y is At
        &&& !x.before(self.x as int)
        &&& !y.before(self.y as int)
        &&& x.before(self.x + self.width)
        &&& y.before(self.y + self.height)
    }

    /// Whether `(x, y)` falls inside this zone.
    pub fn contains(&self, x: Coord, y: Coord) -> (r: bool)
        ensures
            r == self.holds(x, y),
    {
        let left: i64 = self.x as i64;
        let top: i64 = self.y as i64;
        !x.is_before(left) && !y.is_before(top) && x.is_before(left + self.width as i64)
            && y.is_before(top + self.height as i64)
    }
}

/// An output that is currently enabled, paired with its zone.
#[derive(Debug, Clone)]
pub struct OutputZone {
    pub name: String,
    pub zone: Zone,
    pub scale: u64,
    pub transform: String,
}

/// The zone that an enabled output offers.
pub open spec fn zone_of(o: Output) -> Option<OutputZone> {
    match o.logical {
        Some(l) => Some(
            OutputZone {
                name: o.name,
                zone: Zone { width: l.width, height: l.height, x: l.x, y: l.y },
                scale: l.scale,
                transform: l.transform,
            },
        ),
        None => None,
    }
}

/// The zones of the enabled outputs, in the order of the outputs.
pub open spec fn enabled(all: Seq<Output>) -> Seq<OutputZone>
    decreases all.len(),
{
    if all.len() == 0 {
        Seq::empty()
    } else {
        match zone_of(all.last()) {
            Some(z) => enabled(all.drop_last()).push(z),
            None => enabled(all.drop_last()),
        }
    }
}

/// What zones are ordered by: position first, then the output's name.
pub open spec fn sort_key(z: OutputZone) -> (i32, i32, Seq<char>) {
    (z.zone.x, z.zone.y, z.name@)
}

/// The order of the keys.
pub open spec fn key_le(a: (i32, i32, Seq<char>), b: (i32, i32, Seq<char>)) -> bool {
    a.0 < b.0 || (a.0 == b.0 && (a.1 < b.1 || (a.1 == b.1 && lex_le(a.2, b.2))))
}

/// Every zone comes no later than those behind it.
pub open spec fn in_order(zones: Seq<OutputZone>) -> bool {
    forall|i: int, j: int|
        0 <= i <= j < zones.len() ==> key_le(sort_key(#[trigger] zones[i]), sort_key(#[trigger] zones[j]))
}

/// The zones that have a given key, in order.
pub open spec fn with_key(zones: Seq<OutputZone>, k: (i32, i32, Seq<char>)) -> Seq<OutputZone> {
    zones.filter(|z: OutputZone| sort_key(z) == k)
}

/// One list holds the same zones as another, those of equal key in the same
/// order.
pub open spec fn same_zones(a: Seq<OutputZone>, b: Seq<OutputZone>) -> bool {
    forall|k: (i32, i32, Seq<char>)| #[trigger] with_key(a, k) == with_key(b, k)
}

proof fn key_le_total(a: (i32, i32, Seq<char>), b: (i32, i32, Seq<char>))
    ensures
        key_le(a, b) || key_le(b, a),
{
    lex_le_total(a.2, b.2);
}

proof fn key_le_transitive(
    a: (i32, i32, Seq<char>),
    b: (i32, i32, Seq<char>),
    c: (i32, i32, Seq<char>),
)
    requires
        key_le(a, b),
        key_le(b, c),
    ensures
        key_le(a, c),
{
    if lex_le(a.2, b.2) && lex_le(b.2, c.2) {
        lex_le_transitive(a.2, b.2, c.2);
    }
}

proof fn key_le_antisymmetric(a: (i32, i32, Seq<char>), b: (i32, i32, Seq<char>))
    requires
        key_le(a, b),
        key_le(b, a),
    ensures
        a == b,
{
    lex_le_antisymmetric(a.2, b.2);
}

/// Putting a zone behind all that come no later and before all that come later
/// keeps the order, and adds it behind those of its key.
proof fn insertion_keeps(zones: Seq<OutputZone>, p: int, z: OutputZone)
    requires
        in_order(zones),
        0 <= p <= zones.len(),
        forall|i: int| 0 <= i < p ==> key_le(sort_key(#[trigger] zones[i]), sort_key(z)),
        p < zones.len() ==> !key_le(sort_key(zones[p]), sort_key(z)),
    ensures
        in_order(zones.insert(p, z)),
        forall|k: (i32, i32, Seq<char>)|
            #[trigger] with_key(zones.insert(p, z), k) == with_key(zones.push(z), k),
{
    let r = zones.insert(p, z);
    assert forall|i: int| p <= i < zones.len() implies !key_le(
        sort_key(#[trigger] zones[i]),
        sort_key(z),
    ) by {
        if key_le(sort_key(zones[i]), sort_key(z)) {
            key_le_transitive(sort_key(zones[p]), sort_key(zones[i]), sort_key(z));
        }
    }
    assert forall|i: int, j: int| 0 <= i <= j < r.len() implies key_le(
        sort_key(#[trigger] r[i]),
        sort_key(#[trigger] r[j]),
    ) by {
        key_le_total(sort_key(r[i]), sort_key(r[j]));
        if i > p {
            assert(r[i] == zones[i - 1]);
        } else if i < p {
            assert(r[i] == zones[i]);
        }
        if j > p {
            assert(r[j] == zones[j - 1]);
        } else if j < p {
            assert(r[j] == zones[j]);
        }
    }
    assert forall|k: (i32, i32, Seq<char>)| #[trigger]
        with_key(zones.insert(p, z), k) == with_key(zones.push(z), k) by {
        let f = |o: OutputZone| sort_key(o) == k;
        let front = zones.take(p);
        let back = zones.skip(p);
        let one = seq![z];
        assert(zones =~= front + back);
        assert(r =~= front + one + back);
        assert(zones.push(z) =~= front + back + one);
        Seq::filter_distributes_over_add(front + one, back, f);
        Seq::filter_distributes_over_add(front, one, f);
        Seq::filter_distributes_over_add(front + back, one, f);
        Seq::filter_distributes_over_add(front, back, f);
        if f(z) {
            key_le_total(k, k);
            assert(back.filter(f).len() == 0) by {
                if back.filter(f).len() > 0 {
                    filter_member(back, f, 0);
                    let j = choose|j: int| 0 <= j < back.len() && back[j] == back.filter(f)[0];
                    assert(back[j] == zones[p + j]);
                    assert(sort_key(back[j]) == k);
                    assert(!key_le(sort_key(zones[p + j]), sort_key(z)));
                }
            }
            assert(back.filter(f) =~= Seq::empty());
            assert(r.filter(f) =~= zones.push(z).filter(f));
        } else {
            reveal_with_fuel(Seq::filter, 2);
            assert(one.drop_last() =~= Seq::empty());
            assert(one.filter(f) =~= Seq::empty());
            assert(r.filter(f) =~= zones.push(z).filter(f));
        }
    }
}

/// What a filter keeps was in the list, and passes.
proof fn filter_member(s: Seq<OutputZone>, f: spec_fn(OutputZone) -> bool, i: int)
    requires
        0 <= i < s.filter(f).len(),
    ensures
        f(s.filter(f)[i]),
        exists|j: int| 0 <= j < s.len() && s[j] == s.filter(f)[i],
    decreases s.len(),
{
    reveal(Seq::filter);
    let rest = s.drop_last();
    if s.len() > 0 {
        if i < rest.filter(f).len() {
            filter_member(rest, f, i);
            let j = choose|j: int| 0 <= j < rest.len() && rest[j] == rest.filter(f)[i];
            assert(s[j] == s.filter(f)[i]);
        } else {
            assert(s[s.len() - 1] == s.filter(f)[i]);
        }
    }
}

/// Turn niri's outputs into zones.
///
/// Disabled outputs report no logical geometry and are skipped, which is also
/// how hotplug removal surfaces. niri returns outputs in hash order; a stable
/// order keeps zone indices meaningful across calls so barrier ids stay
/// attached to the same screen.
pub fn outputs(parsed: Vec<Output>) -> (zones: Vec<OutputZone>)
    ensures
        in_order(zones@),
        same_zones(zones@, enabled(parsed@)),
{
    let ghost all = parsed@;
    let mut zones: Vec<OutputZone> = Vec::new();
    let mut i: usize = 0;
    assert(all.take(0) =~= Seq::empty());
    while i < parsed.len()
        invariant
            i <= parsed.len(),
            parsed@ == all,
            in_order(zones@),
            same_zones(zones@, enabled(all.take(i as int))),
        decreases parsed.len() - i,
    {
        let ghost before = zones@;
        assert(all.take(i + 1).drop_last() =~= all.take(i as int));
        assert(all.take(i + 1).last() == all[i as int]);
        match &parsed[i].logical {
            Some(l) => {
                let z = OutputZone {
                    name: parsed[i].name.clone(),
                    zone: Zone { width: l.width, height: l.height, x: l.x, y: l.y },
                    scale: l.scale,
                    transform: l.transform.clone(),
                };
                assert(zone_of(all[i as int]) == Some(z));
                let mut p: usize = 0;
                while p < zones.len() && comes_no_later(&zones[p], &z)
                    invariant
                        p <= zones.len(),
                        forall|j: int| 0 <= j < p ==> key_le(
                            sort_key(#[trigger] zones@[j]),
                            sort_key(z),
                        ),
                    decreases zones.len() - p,
                {
                    p += 1;
                }
                proof {
                    insertion_keeps(before, p as int, z);
                    assert forall|k: (i32, i32, Seq<char>)| #[trigger]
                        with_key(before.insert(p as int, z), k) == with_key(
                            enabled(all.take(i + 1)),
                            k,
                        ) by {
                        let f = |o: OutputZone| sort_key(o) == k;
                        let sofar = enabled(all.take(i as int));
                        assert(with_key(before, k) == with_key(sofar, k));
                        assert(before.push(z) =~= before + seq![z]);
                        assert(sofar.push(z) =~= sofar + seq![z]);
                        Seq::filter_distributes_over_add(before, seq![z], f);
                        Seq::filter_distributes_over_add(sofar, seq![z], f);
                    }
                }
                zones.insert(p, z);
            },
            None => {
                assert(zone_of(all[i as int]) is None);
            },
        }
        i += 1;
    }
    assert(all.take(all.len() as int) =~= all);
    zones
}

fn comes_no_later(a: &OutputZone, b: &OutputZone) -> (r: bool)
    ensures
        r == key_le(sort_key(*a), sort_key(*b)),
{
    a.zone.x < b.zone.x || (a.zone.x == b.zone.x && (a.zone.y < b.zone.y || (a.zone.y == b.zone.y
        && text_le(a.name.as_str(), b.name.as_str()))))
}

/// Two ordered lists that hold the same zones are the same list.
pub proof fn the_order_is_unique(a: Seq<OutputZone>, b: Seq<OutputZone>)
    requires
        in_order(a),
        in_order(b),
        same_zones(a, b),
    ensures
        a == b,
    decreases a.len() + b.len(),
{
    if a.len() == 0 && b.len() == 0 {
        assert(a =~= b);
    } else {
        if a.len() > 0 {
            first_of_its_key(a);
            let k = sort_key(a[0]);
            assert(with_key(a, k) == with_key(b, k));
            filter_member(b, |z: OutputZone| sort_key(z) == k, 0);
        }
        if b.len() > 0 {
            first_of_its_key(b);
            let k = sort_key(b[0]);
            assert(with_key(a, k) == with_key(b, k));
            filter_member(a, |z: OutputZone| sort_key(z) == k, 0);
        }
        let (ka, kb) = (sort_key(a[0]), sort_key(b[0]));
        assert(key_le(ka, kb)) by {
            let f = |z: OutputZone| sort_key(z) == kb;
            let j = choose|j: int| 0 <= j < a.len() && a[j] == a.filter(f)[0];
            assert(sort_key(a[j]) == kb);
        }
        assert(key_le(kb, ka)) by {
            let f = |z: OutputZone| sort_key(z) == ka;
            let j = choose|j: int| 0 <= j < b.len() && b[j] == b.filter(f)[0];
            assert(sort_key(b[j]) == ka);
        }
        key_le_antisymmetric(ka, kb);
        assert(a[0] == b[0]);
        let (at, bt) = (a.drop_first(), b.drop_first());
        assert forall|k: (i32, i32, Seq<char>)| #[trigger] with_key(at, k) == with_key(bt, k) by {
            let f = |z: OutputZone| sort_key(z) == k;
            let one = seq![a[0]];
            assert(a =~= one + at);
            assert(b =~= one + bt);
            Seq::filter_distributes_over_add(one, at, f);
            Seq::filter_distributes_over_add(one, bt, f);
            assert(with_key(a, k) == with_key(b, k));
            let n = one.filter(f).len() as int;
            assert(at.filter(f) =~= a.filter(f).skip(n));
            assert(bt.filter(f) =~= b.filter(f).skip(n));
        }
        assert forall|i: int, j: int| 0 <= i <= j < at.len() implies key_le(
            sort_key(#[trigger] at[i]),
            sort_key(#[trigger] at[j]),
        ) by {
            assert(at[i] == a[i + 1] && at[j] == a[j + 1]);
        }
        assert forall|i: int, j: int| 0 <= i <= j < bt.len() implies key_le(
            sort_key(#[trigger] bt[i]),
            sort_key(#[trigger] bt[j]),
        ) by {
            assert(bt[i] == b[i + 1] && bt[j] == b[j + 1]);
        }
        the_order_is_unique(at, bt);
        assert(a =~= seq![a[0]] + at);
        assert(b =~= seq![b[0]] + bt);
    }
}

/// The first zone of a list is the first of those with its key.
proof fn first_of_its_key(zones: Seq<OutputZone>)
    requires
        zones.len() > 0,
    ensures
        with_key(zones, sort_key(zones[0])).len() > 0,
        with_key(zones, sort_key(zones[0]))[0] == zones[0],
{
    let f = |z: OutputZone| sort_key(z) == sort_key(zones[0]);
    let one = seq![zones[0]];
    let rest = zones.drop_first();
    assert(zones =~= one + rest);
    Seq::filter_distributes_over_add(one, rest, f);
    assert(one.filter(f) =~= one) by {
        reveal_with_fuel(Seq::filter, 2);
        assert(one.drop_last() =~= Seq::empty());
    }
}

/// No two zones share a key.
pub open spec fn keys_differ(zones: Seq<OutputZone>) -> bool {
    forall|i: int, j: int|
        0 <= i < j < zones.len() ==> sort_key(#[trigger] zones[i]) != sort_key(#[trigger] zones[j])
}

/// Where keys differ, at most one zone has a given key: the one there is.
proof fn alone_with_its_key(zones: Seq<OutputZone>, k: (i32, i32, Seq<char>))
    requires
        keys_differ(zones),
    ensures
        with_key(zones, k).len() <= 1,
        forall|i: int|
            0 <= i < zones.len() && sort_key(#[trigger] zones[i]) == k ==> with_key(zones, k)
                == seq![zones[i]],
    decreases zones.len(),
{
    reveal(Seq::filter);
    let f = |z: OutputZone| sort_key(z) == k;
    if zones.len() > 0 {
        let rest = zones.drop_last();
        assert forall|i: int, j: int| 0 <= i < j < rest.len() implies sort_key(#[trigger] rest[i])
            != sort_key(#[trigger] rest[j]) by {
            assert(sort_key(zones[i]) != sort_key(zones[j]));
        }
        alone_with_its_key(rest, k);
        if f(zones.last()) {
            if rest.filter(f).len() > 0 {
                filter_member(rest, f, 0);
                let j = choose|j: int| 0 <= j < rest.len() && rest[j] == rest.filter(f)[0];
                assert(sort_key(zones[j]) != sort_key(zones[zones.len() - 1]));
            }
            assert(with_key(zones, k) =~= seq![zones.last()]);
            assert forall|i: int|
                0 <= i < zones.len() && sort_key(#[trigger] zones[i]) == k implies with_key(
                zones,
                k,
            ) == seq![zones[i]] by {
                if i < zones.len() - 1 {
                    assert(sort_key(zones[i]) != sort_key(zones[zones.len() - 1]));
                }
            }
        } else {
            assert forall|i: int|
                0 <= i < zones.len() && sort_key(#[trigger] zones[i]) == k implies with_key(
                zones,
                k,
            ) == seq![zones[i]] by {
                assert(rest[i] == zones[i]);
            }
        }
    }
}

/// The zones do not depend on the order in which niri reports the outputs: two
/// reports of the same outputs give the same list, so that zone indices stay
/// attached to the same screen across calls.
pub proof fn zones_do_not_depend_on_report_order(
    a: Seq<Output>,
    b: Seq<Output>,
    zones_a: Seq<OutputZone>,
    zones_b: Seq<OutputZone>,
)
    requires
        in_order(zones_a),
        same_zones(zones_a, enabled(a)),
        in_order(zones_b),
        same_zones(zones_b, enabled(b)),
        keys_differ(enabled(a)),
        keys_differ(enabled(b)),
        forall|z: OutputZone| #[trigger] enabled(a).contains(z) == enabled(b).contains(z),
    ensures
        zones_a == zones_b,
{
    let (ea, eb) = (enabled(a), enabled(b));
    assert forall|k: (i32, i32, Seq<char>)| #[trigger] with_key(zones_a, k) == with_key(
        zones_b,
        k,
    ) by {
        let f = |z: OutputZone| sort_key(z) == k;
        alone_with_its_key(ea, k);
        alone_with_its_key(eb, k);
        assert(with_key(zones_a, k) == with_key(ea, k));
        assert(with_key(zones_b, k) == with_key(eb, k));
        if ea.filter(f).len() > 0 {
            filter_member(ea, f, 0);
            let z = ea.filter(f)[0];
            assert(ea.contains(z));
            assert(eb.contains(z));
            let j = choose|j: int| 0 <= j < eb.len() && eb[j] == z;
            assert(sort_key(eb[j]) == k);
            assert(with_key(ea, k) =~= seq![z]);
        } else if eb.filter(f).len() > 0 {
            filter_member(eb, f, 0);
            let z = eb.filter(f)[0];
            assert(eb.contains(z));
            assert(ea.contains(z));
            let j = choose|j: int| 0 <= j < ea.len() && ea[j] == z;
            assert(sort_key(ea[j]) == k);
            assert(with_key(ea, k) == seq![ea[j]]);
        } else {
            assert(with_key(ea, k) =~= with_key(eb, k));
        }
    }
    the_order_is_unique(zones_a, zones_b);
}

/// An enabled output offers its own rectangle under its own name, field by field,
/// with its scale and its transform; a disabled one offers nothing.
pub proof fn an_output_offers_its_own_rectangle(o: Output)
    ensures
        match (o.logical, zone_of(o)) {
            (Some(l), Some(z)) => {
                &&& z.name == o.name
                &&& z.zone.x == l.x
                &&& z.zone.y == l.y
                &&& z.zone.width == l.width
                &&& z.zone.height == l.height
                &&& z.scale == l.scale
                &&& z.transform == l.transform
            },
            (None, None) => true,
            _ => false,
        },
{
}

/// One output more is one zone more, behind all others, if it is enabled, and none
/// if it is not.
pub proof fn one_output_more_is_one_zone_more(all: Seq<Output>, o: Output)
    ensures
        enabled(Seq::empty()).len() == 0,
        match o.logical {
            Some(_) => {
                &&& enabled(all.push(o)).len() == enabled(all).len() + 1
                &&& enabled(all.push(o)).drop_last() == enabled(all)
                &&& Some(enabled(all.push(o)).last()) == zone_of(o)
            },
            None => enabled(all.push(o)) == enabled(all),
        },
{
    assert(all.push(o).drop_last() =~= all);
    assert(o.logical is Some ==> enabled(all.push(o)).drop_last() =~= enabled(all));
}

/// Zones come from left to right; those as far to the left from top to bottom; and
/// those at one place by name.
pub proof fn zones_come_left_to_right(zones: Seq<OutputZone>, i: int, j: int)
    requires
        in_order(zones),
        0 <= i < j < zones.len(),
    ensures
        ({
            let (a, b) = (zones[i], zones[j]);
            &&& a.zone.x <= b.zone.x
            &&& a.zone.x == b.zone.x ==> a.zone.y <= b.zone.y
            &&& a.zone.x == b.zone.x && a.zone.y == b.zone.y ==> lex_le(a.name@, b.name@)
        }),
{
}

/// Every enabled output has its zone in the list that is made of them, and the list
/// holds nothing else.
pub proof fn the_list_holds_every_enabled_output(
    zones: Seq<OutputZone>,
    all: Seq<Output>,
    z: OutputZone,
)
    requires
        same_zones(zones, enabled(all)),
    ensures
        zones.contains(z) == enabled(all).contains(z),
{
    let k = sort_key(z);
    let f = |o: OutputZone| sort_key(o) == k;
    assert(with_key(zones, k) == with_key(enabled(all), k));
    if zones.contains(z) {
        let i = choose|i: int| 0 <= i < zones.len() && zones[i] == z;
        zones.lemma_filter_contains(f, i);
        let j = choose|j: int| 0 <= j < zones.filter(f).len() && zones.filter(f)[j] == z;
        filter_member(enabled(all), f, j);
    }
    if enabled(all).contains(z) {
        let e = enabled(all);
        let i = choose|i: int| 0 <= i < e.len() && e[i] == z;
        e.lemma_filter_contains(f, i);
        let j = choose|j: int| 0 <= j < e.filter(f).len() && e.filter(f)[j] == z;
        filter_member(zones, f, j);
    }
}

/// A zone holds a point if it lies on or behind the left and top edges and before
/// the right and bottom ones, to the step; and it holds nothing that is no number.
pub proof fn a_zone_holds_the_points_between_its_edges(z: Zone, x: Coord, y: Coord)
    ensures
        z.holds(x, y) == match (x, y) {
            (Coord::At { steps: a, .. }, Coord::At { steps: b, .. }) => {
                &&& 256 * z.x <= a < 256 * (z.x + z.width)
                &&& 256 * z.y <= b < 256 * (z.y + z.height)
            },
            _ => false,
        },
{
}

} // verus!
