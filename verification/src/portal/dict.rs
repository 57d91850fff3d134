//! The `a{sv}` dictionaries that portal calls carry: named values of a few types.

use crate::coord::Coord;
use crate::portal::ZoneTuple;
use crate::text::texts;
use vstd::prelude::*;

verus! {

/// One value of a dictionary.
#[derive(Debug)]
pub enum DictValue {
    Bool(bool),
    U32(u32),
    Text(String),
    Texts(Vec<String>),
    Numbers(Vec<u32>),
    Zones(Vec<ZoneTuple>),
    /// A line between two points.
    Line { x1: i32, y1: i32, x2: i32, y2: i32 },
    Point { x: Coord, y: Coord },
    /// A value of a type that no call reads.
    Other,
}

/// One value, seen from outside.
pub enum ValueView {
    Bool(bool),
    U32(u32),
    Text(Seq<char>),
    Texts(Seq<Seq<char>>),
    Numbers(Seq<u32>),
    Zones(Seq<ZoneTuple>),
    Line { x1: i32, y1: i32, x2: i32, y2: i32 },
    Point { x: Coord, y: Coord },
    Other,
}

impl View for DictValue {
    type V = ValueView;

    open spec fn view(&self) -> ValueView {
        match *self {
            DictValue::Bool(b) => ValueView::Bool(b),
            DictValue::U32(n) => ValueView::U32(n),
            DictValue::Text(s) => ValueView::Text(s@),
            DictValue::Texts(list) => ValueView::Texts(texts(list@)),
            DictValue::Numbers(list) => ValueView::Numbers(list@),
            DictValue::Zones(list) => ValueView::Zones(list@),
            DictValue::Line { x1, y1, x2, y2 } => ValueView::Line { x1, y1, x2, y2 },
            DictValue::Point { x, y } => ValueView::Point { x, y },
            DictValue::Other => ValueView::Other,
        }
    }
}

/// A dictionary: values under names, no name twice.
pub type Dict = Vec<(String, DictValue)>;

/// The entries of a dictionary, seen from outside.
pub open spec fn entries(dict: Seq<(String, DictValue)>) -> Seq<(Seq<char>, ValueView)> {
    dict.map_values(|e: (String, DictValue)| (e.0@, e.1@))
}

/// The value under a name, if there is one.
pub open spec fn value_of(dict: Seq<(Seq<char>, ValueView)>, name: Seq<char>) -> Option<ValueView>
    decreases dict.len(),
{
    if dict.len() == 0 {
        None
    } else if dict[0].0 == name {
        Some(dict[0].1)
    } else {
        value_of(dict.drop_first(), name)
    }
}

/// Look a name up.
pub fn get<'a>(dict: &'a Dict, name: &str) -> (r: Option<&'a DictValue>)
    ensures
        match (r, value_of(entries(dict@), name@)) {
            (Some(v), Some(w)) => v@ == w,
            (None, None) => true,
            _ => false,
        },
{
    let wanted = name.to_owned();
    let ghost all = entries(dict@);
    let mut i: usize = 0;
    assert(all.skip(0) =~= all);
    while i < dict.len()
        invariant
            i <= dict.len(),
            wanted@ == name@,
            all == entries(dict@),
            value_of(all, name@) == value_of(all.skip(i as int), name@),
        decreases dict.len() - i,
    {
        proof {
            assert(all.skip(i as int).drop_first() =~= all.skip(i + 1));
            assert(all.skip(i as int)[0] == (dict@[i as int].0@, dict@[i as int].1@));
        }
        if dict[i].0 == wanted {
            return Some(&dict[i].1);
        }
        i += 1;
    }
    None
}

/// No name stands for two values.
pub open spec fn names_are_distinct(dict: Seq<(Seq<char>, ValueView)>) -> bool {
    forall|i: int, j: int|
        0 <= i < j < dict.len() ==> #[trigger] dict[i].0 != #[trigger] dict[j].0
}

/// The dictionary once a value is put under a name: in the place of the one that
/// was there, or behind all others.
pub open spec fn put(
    dict: Seq<(Seq<char>, ValueView)>,
    name: Seq<char>,
    value: ValueView,
) -> Seq<(Seq<char>, ValueView)>
    decreases dict.len(),
{
    if dict.len() == 0 {
        seq![(name, value)]
    } else if dict[0].0 == name {
        dict.update(0, (name, value))
    } else {
        seq![dict[0]] + put(dict.drop_first(), name, value)
    }
}

/// Where a value put under a name goes.
proof fn put_goes_to(dict: Seq<(Seq<char>, ValueView)>, name: Seq<char>, value: ValueView, at: int)
    requires
        0 <= at <= dict.len(),
        forall|i: int| 0 <= i < at ==> #[trigger] dict[i].0 != name,
        at < dict.len() ==> dict[at].0 == name,
    ensures
        put(dict, name, value) == if at < dict.len() {
            dict.update(at, (name, value))
        } else {
            dict.push((name, value))
        },
    decreases dict.len(),
{
    if dict.len() == 0 {
        assert(put(dict, name, value) =~= dict.push((name, value)));
    } else if at > 0 {
        let rest = dict.drop_first();
        assert forall|i: int| 0 <= i < at - 1 implies #[trigger] rest[i].0 != name by {
            assert(rest[i] == dict[i + 1]);
        }
        assert(dict[0].0 != name);
        put_goes_to(rest, name, value, at - 1);
        assert(put(dict, name, value) =~= if at < dict.len() {
            dict.update(at, (name, value))
        } else {
            dict.push((name, value))
        });
    }
}

/// A value under a name that is not there yet goes behind all others.
pub proof fn a_new_name_goes_last(
    dict: Seq<(Seq<char>, ValueView)>,
    name: Seq<char>,
    value: ValueView,
)
    requires
        forall|i: int| 0 <= i < dict.len() ==> #[trigger] dict[i].0 != name,
    ensures
        put(dict, name, value) == dict.push((name, value)),
{
    put_goes_to(dict, name, value, dict.len() as int);
}

/// A value is found under the name it was put under last, and what stands under
/// any other name stays.
pub proof fn what_was_put_is_found(
    dict: Seq<(Seq<char>, ValueView)>,
    name: Seq<char>,
    value: ValueView,
    wanted: Seq<char>,
)
    ensures
        value_of(put(dict, name, value), wanted) == if wanted == name {
            Some(value)
        } else {
            value_of(dict, wanted)
        },
    decreases dict.len(),
{
    let after = put(dict, name, value);
    if dict.len() == 0 {
        assert(after.drop_first() =~= dict);
    } else if dict[0].0 == name {
        assert(after.drop_first() =~= dict.drop_first());
    } else {
        what_was_put_is_found(dict.drop_first(), name, value, wanted);
        assert(after.drop_first() =~= put(dict.drop_first(), name, value));
    }
}

/// Putting a value under a name never makes a name stand for two values.
pub proof fn names_stay_distinct(
    dict: Seq<(Seq<char>, ValueView)>,
    name: Seq<char>,
    value: ValueView,
)
    requires
        names_are_distinct(dict),
    ensures
        names_are_distinct(put(dict, name, value)),
{
    if exists|i: int| 0 <= i < dict.len() && #[trigger] dict[i].0 == name {
        let at = choose|i: int| 0 <= i < dict.len() && #[trigger] dict[i].0 == name;
        put_goes_to(dict, name, value, at);
    } else {
        a_new_name_goes_last(dict, name, value);
    }
}

/// Put a value under a name, in the place of the one that was there if any.
pub fn insert(dict: &mut Dict, name: &str, value: DictValue)
    ensures
        entries(final(dict)@) == put(entries(old(dict)@), name@, value@),
{
    let owned = name.to_owned();
    let ghost all = entries(dict@);
    let mut i: usize = 0;
    while i < dict.len()
        invariant
            i <= dict@.len(),
            owned@ == name@,
            dict@ == old(dict)@,
            all == entries(dict@),
            forall|j: int| 0 <= j < i ==> #[trigger] all[j].0 != name@,
        decreases dict@.len() - i,
    {
        assert(all[i as int].0 == dict@[i as int].0@);
        if dict[i].0 == owned {
            proof {
                put_goes_to(all, name@, value@, i as int);
            }
            dict[i] = (owned, value);
            assert(entries(dict@) =~= all.update(i as int, (name@, value@)));
            return;
        }
        i += 1;
    }
    proof {
        put_goes_to(all, name@, value@, i as int);
    }
    dict.push((owned, value));
    assert(entries(dict@) =~= all.push((name@, value@)));
}

/// A dictionary without entries.
pub fn empty() -> (r: Dict)
    ensures
        entries(r@) == Seq::<(Seq<char>, ValueView)>::empty(),
{
    let r: Dict = Vec::new();
    assert(entries(r@) =~= Seq::empty());
    r
}

/// The number under a name, if a number is there.
pub open spec fn number_of(dict: Seq<(Seq<char>, ValueView)>, name: Seq<char>) -> Option<u32> {
    match value_of(dict, name) {
        Some(ValueView::U32(n)) => Some(n),
        _ => None,
    }
}

/// The line under a name, if a line is there.
pub open spec fn line_of(dict: Seq<(Seq<char>, ValueView)>, name: Seq<char>) -> Option<
    (i32, i32, i32, i32),
> {
    match value_of(dict, name) {
        Some(ValueView::Line { x1, y1, x2, y2 }) => Some((x1, y1, x2, y2)),
        _ => None,
    }
}

/// The point under a name, if a point is there.
pub open spec fn point_of(dict: Seq<(Seq<char>, ValueView)>, name: Seq<char>) -> Option<
    (Coord, Coord),
> {
    match value_of(dict, name) {
        Some(ValueView::Point { x, y }) => Some((x, y)),
        _ => None,
    }
}

/// The texts under a name, none if there are no texts there.
pub open spec fn texts_of(dict: Seq<(Seq<char>, ValueView)>, name: Seq<char>) -> Seq<Seq<char>> {
    match value_of(dict, name) {
        Some(ValueView::Texts(list)) => list,
        _ => Seq::empty(),
    }
}

/// Look a number up.
pub fn get_number(dict: &Dict, name: &str) -> (r: Option<u32>)
    ensures
        r == number_of(entries(dict@), name@),
{
    match get(dict, name) {
        Some(DictValue::U32(n)) => Some(*n),
        _ => None,
    }
}

/// Look a line up.
pub fn get_line(dict: &Dict, name: &str) -> (r: Option<(i32, i32, i32, i32)>)
    ensures
        r == line_of(entries(dict@), name@),
{
    match get(dict, name) {
        Some(DictValue::Line { x1, y1, x2, y2 }) => Some((*x1, *y1, *x2, *y2)),
        _ => None,
    }
}

/// Look a point up.
pub fn get_point(dict: &Dict, name: &str) -> (r: Option<(Coord, Coord)>)
    ensures
        r == point_of(entries(dict@), name@),
{
    match get(dict, name) {
        Some(DictValue::Point { x, y }) => Some((*x, *y)),
        _ => None,
    }
}

/// Look texts up.
pub fn get_texts(dict: &Dict, name: &str) -> (r: Vec<String>)
    ensures
        texts(r@) == texts_of(entries(dict@), name@),
{
    match get(dict, name) {
        Some(DictValue::Texts(list)) => {
            let r = list.clone();
            assert(r@ =~= list@);
            r
        },
        _ => {
            let r: Vec<String> = Vec::new();
            assert(texts(r@) =~= Seq::empty());
            r
        },
    }
}

/// A name finds the value of the first entry that has it, and none only if no entry
/// does.
pub proof fn a_name_finds_the_first_entry_that_has_it(
    dict: Seq<(Seq<char>, ValueView)>,
    name: Seq<char>,
)
    ensures
        match value_of(dict, name) {
            Some(value) => exists|i: int|
                0 <= i < dict.len() && (#[trigger] dict[i]) == (name, value) && forall|j: int|
                    0 <= j < i ==> (#[trigger] dict[j]).0 != name,
            None => forall|j: int| 0 <= j < dict.len() ==> (#[trigger] dict[j]).0 != name,
        },
    decreases dict.len(),
{
    if dict.len() > 0 {
        let rest = dict.drop_first();
        a_name_finds_the_first_entry_that_has_it(rest, name);
        assert forall|j: int| 1 <= j < dict.len() implies #[trigger] dict[j] == rest[j - 1] by {}
        if dict[0].0 == name {
            assert(dict[0] == (name, dict[0].1));
        } else if let Some(value) = value_of(rest, name) {
            let i = choose|i: int|
                0 <= i < rest.len() && (#[trigger] rest[i]) == (name, value) && forall|j: int|
                    0 <= j < i ==> (#[trigger] rest[j]).0 != name;
            assert(dict[i + 1] == (name, value));
        }
    }
}

/// A dictionary is seen entry by entry, in order, each under its own name and as the
/// value that it is.
pub proof fn entries_are_seen_as_they_are(dict: Seq<(String, DictValue)>)
    ensures
        entries(dict).len() == dict.len(),
        forall|i: int| #![trigger entries(dict)[i]]
            0 <= i < dict.len() ==> entries(dict)[i].0 == dict[i].0@ && match (
                dict[i].1,
                entries(dict)[i].1,
            ) {
                (DictValue::Bool(b), ValueView::Bool(c)) => b == c,
                (DictValue::U32(n), ValueView::U32(m)) => n == m,
                (DictValue::Text(s), ValueView::Text(t)) => s@ == t,
                (DictValue::Texts(list), ValueView::Texts(seen)) => seen == texts(list@),
                (DictValue::Numbers(list), ValueView::Numbers(seen)) => seen == list@,
                (DictValue::Zones(list), ValueView::Zones(seen)) => seen == list@,
                (
                    DictValue::Line { x1, y1, x2, y2 },
                    ValueView::Line { x1: a, y1: b, x2: c, y2: d },
                ) => (x1, y1, x2, y2) == (a, b, c, d),
                (DictValue::Point { x, y }, ValueView::Point { x: a, y: b }) => x == a && y == b,
                (DictValue::Other, ValueView::Other) => true,
                _ => false,
            },
{
}

} // verus!
