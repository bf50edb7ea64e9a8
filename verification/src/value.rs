//! Values that are compared and copied by what they stand for.

use vstd::prelude::*;

use crate::ordered_map::{key_index, OrderedMap};
use crate::text::same_text;

verus! {

/// A value with a mathematical meaning by which it is compared and copied.
pub trait Value: View + Sized {
    /// Whether two values mean the same.
    fn same(&self, other: &Self) -> (r: bool)
        ensures
            r == (self@ == other@),
    ;

    /// Another value of the same meaning.
    fn copy(&self) -> (r: Self)
        ensures
            r@ == self@,
    ;
}

impl Value for String {
    fn same(&self, other: &String) -> (r: bool) {
        same_text(self.as_str(), other.as_str())
    }

    fn copy(&self) -> (r: String) {
        self.clone()
    }
}

/// The meanings of the values in a list.
pub open spec fn views<T: Value>(list: Seq<T>) -> Seq<T::V> {
    list.map_values(|t: T| t@)
}

/// The meaning of an optional value.
pub open spec fn optional_view<T: Value>(value: Option<T>) -> Option<T::V> {
    match value {
        Some(t) => Some(t@),
        None => None,
    }
}

/// The keys and the meanings of the values of a map, in ascending key order.
pub open spec fn entry_views<T: Value>(map: OrderedMap<String, T>) -> Seq<(Seq<char>, T::V)> {
    map.entries@.map_values(|e: (String, T)| (e.0@, e.1@))
}

/// Whether two lists mean the same.
pub fn same_list<T: Value>(a: &Vec<T>, b: &Vec<T>) -> (r: bool)
    ensures
        r == (views(a@) == views(b@)),
{
    if a.len() != b.len() {
        proof {
            assert(views(a@).len() != views(b@).len());
        }
        return false;
    }
    let mut i: usize = 0;
    while i < a.len()
        invariant
            a.len() == b.len(),
            i <= a.len(),
            forall|j: int| 0 <= j < i ==> #[trigger] views(a@)[j] == views(b@)[j],
        decreases a.len() - i,
    {
        proof {
            assert(views(a@)[i as int] == a@[i as int]@);
            assert(views(b@)[i as int] == b@[i as int]@);
        }
        if !a[i].same(&b[i]) {
            return false;
        }
        i = i + 1;
    }
    proof {
        assert(views(a@) =~= views(b@));
    }
    true
}

/// Whether a part of a list means the same as another list.
pub fn same_part<T: Value>(whole: &Vec<T>, from: usize, part: &Vec<T>) -> (r: bool)
    requires
        from + part@.len() <= whole@.len(),
    ensures
        r == (views(whole@).subrange(from as int, from + part@.len()) == views(part@)),
{
    let ghost piece = views(whole@).subrange(from as int, from + part@.len());
    let total: usize = whole.len();
    let mut i: usize = 0;
    while i < part.len()
        invariant
            total == whole@.len(),
            from + part@.len() <= whole@.len(),
            piece == views(whole@).subrange(from as int, from + part@.len()),
            i <= part.len(),
            forall|j: int| 0 <= j < i ==> #[trigger] piece[j] == views(part@)[j],
        decreases part.len() - i,
    {
        proof {
            assert(piece[i as int] == whole@[from + i]@);
            assert(views(part@)[i as int] == part@[i as int]@);
        }
        if !whole[from + i].same(&part[i]) {
            return false;
        }
        i = i + 1;
    }
    proof {
        assert(piece =~= views(part@));
    }
    true
}

/// Copy a list.
pub fn copy_list<T: Value>(a: &Vec<T>) -> (r: Vec<T>)
    ensures
        views(r@) == views(a@),
        r@.len() == a@.len(),
{
    let mut out: Vec<T> = Vec::new();
    let mut i: usize = 0;
    while i < a.len()
        invariant
            i <= a.len(),
            out@.len() == i,
            forall|j: int| 0 <= j < i ==> (#[trigger] out@[j])@ == a@[j]@,
        decreases a.len() - i,
    {
        out.push(a[i].copy());
        i = i + 1;
    }
    proof {
        assert(views(out@) =~= views(a@));
    }
    out
}

/// Whether two optional values mean the same.
pub fn same_optional<T: Value>(a: &Option<T>, b: &Option<T>) -> (r: bool)
    ensures
        r == (optional_view(*a) == optional_view(*b)),
{
    match (a, b) {
        (Some(x), Some(y)) => x.same(y),
        (None, None) => true,
        _ => false,
    }
}

/// Copy an optional value.
pub fn copy_optional<T: Value>(a: &Option<T>) -> (r: Option<T>)
    ensures
        optional_view(r) == optional_view(*a),
{
    match a {
        Some(x) => Some(x.copy()),
        None => None,
    }
}

/// Whether two maps mean the same.
pub fn same_map<T: Value>(a: &OrderedMap<String, T>, b: &OrderedMap<String, T>) -> (r: bool)
    ensures
        r == (entry_views(*a) == entry_views(*b)),
{
    if a.entries.len() != b.entries.len() {
        proof {
            assert(entry_views(*a).len() != entry_views(*b).len());
        }
        return false;
    }
    let mut i: usize = 0;
    while i < a.entries.len()
        invariant
            a.entries.len() == b.entries.len(),
            i <= a.entries.len(),
            forall|j: int| 0 <= j < i ==> #[trigger] entry_views(*a)[j] == entry_views(*b)[j],
        decreases a.entries.len() - i,
    {
        let x = &a.entries[i];
        let y = &b.entries[i];
        proof {
            assert(entry_views(*a)[i as int] == (x.0@, x.1@));
            assert(entry_views(*b)[i as int] == (y.0@, y.1@));
        }
        if !same_text(x.0.as_str(), y.0.as_str()) || !x.1.same(&y.1) {
            return false;
        }
        i = i + 1;
    }
    proof {
        assert(entry_views(*a) =~= entry_views(*b));
    }
    true
}

/// Copy a map.
pub fn copy_map<T: Value>(a: &OrderedMap<String, T>) -> (r: OrderedMap<String, T>)
    ensures
        entry_views(r) == entry_views(*a),
        a.wf() ==> r.wf(),
{
    let mut entries: Vec<(String, T)> = Vec::new();
    let mut i: usize = 0;
    while i < a.entries.len()
        invariant
            i <= a.entries.len(),
            entries@.len() == i,
            forall|j: int|
                0 <= j < i ==> (#[trigger] entries@[j]).0 == a.entries@[j].0 && entries@[j].1@
                    == a.entries@[j].1@,
        decreases a.entries.len() - i,
    {
        entries.push((a.entries[i].0.clone(), a.entries[i].1.copy()));
        i = i + 1;
    }
    let r = OrderedMap { entries };
    proof {
        assert(entry_views(r) =~= entry_views(*a));
        if a.wf() {
            assert forall|i: int, j: int|
                0 <= i < j < r.entries@.len() implies <String as crate::ordered_map::Key>::less(
                crate::ordered_map::Key::value(&(#[trigger] r.entries@[i]).0),
                crate::ordered_map::Key::value(&(#[trigger] r.entries@[j]).0),
            ) by {
                assert(r.entries@[i].0 == a.entries@[i].0);
                assert(r.entries@[j].0 == a.entries@[j].0);
            }
        }
    }
    r
}

/// The meanings of the values of a map, by key.
pub open spec fn map_meaning<T: Value>(map: OrderedMap<String, T>) -> Map<Seq<char>, T::V> {
    map@.map_values(|t: T| t@)
}

/// Maps with the same entries mean the same.
pub proof fn same_entries_same_meaning<T: Value>(
    a: OrderedMap<String, T>,
    b: OrderedMap<String, T>,
)
    requires
        a.wf(),
        b.wf(),
        entry_views(a) == entry_views(b),
    ensures
        map_meaning(a) == map_meaning(b),
{
    let e = a.entries@;
    let f = b.entries@;
    assert(entry_views(a).len() == e.len());
    assert(entry_views(b).len() == f.len());
    assert forall|i: int| 0 <= i < e.len() implies (#[trigger] e[i]).0@ == f[i].0@ && e[i].1@
        == f[i].1@ by {
        assert(entry_views(a)[i] == (e[i].0@, e[i].1@));
        assert(entry_views(b)[i] == (f[i].0@, f[i].1@));
    }
    assert forall|k: Seq<char>| map_meaning(a).dom().contains(k) == map_meaning(b).dom().contains(
        k,
    ) by {
        if a@.dom().contains(k) {
            let i = key_index(e, k);
            assert(e[i].0@ == k);
            b.entry_is_value(i);
        }
        if b@.dom().contains(k) {
            let i = key_index(f, k);
            assert(f[i].0@ == k);
            assert(e[i].0@ == k);
            a.entry_is_value(i);
        }
    }
    assert forall|k: Seq<char>| map_meaning(a).dom().contains(k) implies map_meaning(a)[k]
        == map_meaning(b)[k] by {
        assert(a@.dom().contains(k));
        let i = key_index(e, k);
        assert(e[i].0@ == k);
        a.entry_is_value(i);
        b.entry_is_value(i);
    }
    assert(map_meaning(a) =~= map_meaning(b));
}

} // verus!
