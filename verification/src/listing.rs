//! Directory listings: their order and their lines.

use vstd::prelude::*;
use vstd::string::*;
use vstd::utf8::*;

use crate::attributes::{Attributes, AttributesView};
use crate::command::texts;
use crate::text::{decimal, octal, push_decimal, push_octal};

verus! {

// The order of names.

/// The order of byte strings: the first byte that differs decides, and a
/// beginning comes before what it begins.
pub open spec fn bytes_le(a: Seq<u8>, b: Seq<u8>) -> bool
    decreases a.len(),
{
    if a.len() == 0 {
        true
    } else if b.len() == 0 {
        false
    } else if a[0] != b[0] {
        a[0] < b[0]
    } else {
        bytes_le(a.drop_first(), b.drop_first())
    }
}

/// The order of names: that of their UTF-8 bytes.
#[verifier::opaque]
pub open spec fn name_le(a: Seq<char>, b: Seq<char>) -> bool {
    bytes_le(encode_utf8(a), encode_utf8(b))
}

proof fn lemma_bytes_total(a: Seq<u8>, b: Seq<u8>)
    ensures
        bytes_le(a, b) || bytes_le(b, a),
        bytes_le(a, b) && bytes_le(b, a) ==> a == b,
    decreases a.len(),
{
    if a.len() > 0 && b.len() > 0 && a[0] == b[0] {
        lemma_bytes_total(a.drop_first(), b.drop_first());
        if bytes_le(a, b) && bytes_le(b, a) {
            assert(a =~= seq![a[0]] + a.drop_first());
            assert(b =~= seq![b[0]] + b.drop_first());
        }
    } else if a.len() == 0 && b.len() == 0 {
        assert(a =~= b);
    }
}

proof fn lemma_bytes_transitive(a: Seq<u8>, b: Seq<u8>, c: Seq<u8>)
    requires
        bytes_le(a, b),
        bytes_le(b, c),
    ensures
        bytes_le(a, c),
    decreases a.len(),
{
    if a.len() > 0 && b.len() > 0 && c.len() > 0 && a[0] == b[0] && b[0] == c[0] {
        lemma_bytes_transitive(a.drop_first(), b.drop_first(), c.drop_first());
    }
}

/// Names are totally ordered.
pub proof fn law_names_are_ordered(a: Seq<char>, b: Seq<char>, c: Seq<char>)
    ensures
        name_le(a, a),
        name_le(a, b) || name_le(b, a),
        name_le(a, b) && name_le(b, a) ==> a == b,
        name_le(a, b) && name_le(b, c) ==> name_le(a, c),
{
    reveal(name_le);
    let x = encode_utf8(a);
    let y = encode_utf8(b);
    let z = encode_utf8(c);
    lemma_bytes_total(x, x);
    lemma_bytes_total(x, y);
    encode_utf8_decode_utf8(a);
    encode_utf8_decode_utf8(b);
    if bytes_le(x, y) && bytes_le(y, z) {
        lemma_bytes_transitive(x, y, z);
    }
}

/// Whether name `a` comes before name `b` or is the same.
pub fn name_not_after(a: &str, b: &str) -> (r: bool)
    ensures
        r == name_le(a@, b@),
{
    proof {
        reveal(name_le);
    }
    let x = a.as_bytes();
    let y = b.as_bytes();
    let mut i: usize = 0;
    assert(x@.skip(0) =~= x@);
    assert(y@.skip(0) =~= y@);
    while i < x.len() && i < y.len()
        invariant
            i <= x@.len(),
            i <= y@.len(),
            name_le(a@, b@) == bytes_le(x@.skip(i as int), y@.skip(i as int)),
        decreases x@.len() - i,
    {
        assert(x@.skip(i as int).drop_first() =~= x@.skip(i + 1));
        assert(y@.skip(i as int).drop_first() =~= y@.skip(i + 1));
        if x[i] != y[i] {
            return x[i] < y[i];
        }
        i += 1;
    }
    x.len() <= i
}

/// Whether place `i` comes before place `j` when names are sorted: by name,
/// and by place where the names are the same.
pub open spec fn before(names: Seq<Seq<char>>, i: int, j: int) -> bool {
    if names[i] == names[j] {
        i < j
    } else {
        name_le(names[i], names[j])
    }
}

proof fn lemma_before(names: Seq<Seq<char>>, i: int, j: int, k: int)
    ensures
        !(before(names, i, j) && before(names, j, i)),
        i == j || before(names, i, j) || before(names, j, i),
        before(names, i, j) && before(names, j, k) ==> before(names, i, k),
{
    law_names_are_ordered(names[i], names[j], names[k]);
    law_names_are_ordered(names[j], names[i], names[k]);
    law_names_are_ordered(names[j], names[k], names[i]);
}

/// Whether `order` lists the places of `names`, each once, in the order of the
/// names.
pub open spec fn is_name_order(names: Seq<Seq<char>>, order: Seq<int>) -> bool {
    &&& order.len() == names.len()
    &&& forall|i: int| 0 <= i < order.len() ==> 0 <= #[trigger] order[i] < names.len()
    &&& forall|k: int| 0 <= k < names.len() ==> #[trigger] order.contains(k)
    &&& forall|i: int, j: int|
        0 <= i < j < order.len() ==> before(names, #[trigger] order[i], #[trigger] order[j])
}

/// The places of `names` in the order of the names. Names that are the same
/// stay in the order in which they are given.
#[verifier::opaque]
pub open spec fn name_order(names: Seq<Seq<char>>) -> Seq<int> {
    choose|order: Seq<int>| is_name_order(names, order)
}

/// Names can always be sorted.
pub proof fn law_names_can_be_sorted(names: Seq<Seq<char>>)
    ensures
        is_name_order(names, name_order(names)),
{
    reveal(name_order);
    lemma_some_order(names);
}

/// The number of places in `order` that come before place `k`.
spec fn places_before(names: Seq<Seq<char>>, order: Seq<int>, k: int) -> int
    decreases order.len(),
{
    if order.len() == 0 {
        0
    } else if before(names, order.last(), k) {
        order.len() as int
    } else {
        places_before(names, order.drop_last(), k)
    }
}

proof fn lemma_places_before(names: Seq<Seq<char>>, order: Seq<int>, k: int)
    requires
        forall|i: int, j: int|
            0 <= i < j < order.len() ==> before(names, #[trigger] order[i], #[trigger] order[j]),
        forall|i: int| 0 <= i < order.len() ==> #[trigger] order[i] != k,
    ensures
        0 <= places_before(names, order, k) <= order.len(),
        forall|i: int|
            0 <= i < places_before(names, order, k) ==> before(names, #[trigger] order[i], k),
        forall|i: int|
            places_before(names, order, k) <= i < order.len() ==> before(
                names,
                k,
                #[trigger] order[i],
            ),
    decreases order.len(),
{
    if order.len() > 0 {
        let last = order.last();
        lemma_before(names, last, k, last);
        if before(names, last, k) {
            assert forall|i: int| 0 <= i < order.len() implies before(
                names,
                #[trigger] order[i],
                k,
            ) by {
                if i < order.len() - 1 {
                    assert(before(names, order[i], order[order.len() - 1]));
                    lemma_before(names, order[i], last, k);
                }
            }
        } else {
            let rest = order.drop_last();
            assert forall|i: int, j: int| 0 <= i < j < rest.len() implies before(
                names,
                #[trigger] rest[i],
                #[trigger] rest[j],
            ) by {
                assert(before(names, order[i], order[j]));
            }
            assert forall|i: int| 0 <= i < rest.len() implies #[trigger] rest[i] != k by {
                assert(order[i] != k);
            }
            lemma_places_before(names, rest, k);
            let p = places_before(names, rest, k);
            assert forall|i: int| 0 <= i < p implies before(names, #[trigger] order[i], k) by {
                assert(rest[i] == order[i]);
            }
            assert forall|i: int| p <= i < order.len() implies before(
                names,
                k,
                #[trigger] order[i],
            ) by {
                if i < rest.len() {
                    assert(rest[i] == order[i]);
                }
            }
        }
    }
}

proof fn lemma_some_order(names: Seq<Seq<char>>)
    ensures
        exists|order: Seq<int>| is_name_order(names, order),
    decreases names.len(),
{
    if names.len() == 0 {
        assert(is_name_order(names, seq![]));
    } else {
        let shorter = names.drop_last();
        let k = names.len() - 1;
        lemma_some_order(shorter);
        let o = choose|order: Seq<int>| is_name_order(shorter, order);
        assert forall|i: int, j: int| 0 <= i < j < o.len() implies before(
            names,
            #[trigger] o[i],
            #[trigger] o[j],
        ) by {
            assert(before(shorter, o[i], o[j]));
        }
        assert forall|i: int| 0 <= i < o.len() implies #[trigger] o[i] != k by {
            assert(0 <= o[i] < shorter.len());
        }
        lemma_places_before(names, o, k);
        let p = places_before(names, o, k);
        let order = o.insert(p, k);
        assert forall|i: int| 0 <= i < order.len() implies 0 <= #[trigger] order[i]
            < names.len() by {
            if i < p {
                assert(order[i] == o[i]);
            } else if i > p {
                assert(order[i] == o[i - 1]);
            }
        }
        assert forall|m: int| 0 <= m < names.len() implies #[trigger] order.contains(m) by {
            if m == k {
                assert(order[p] == k);
            } else {
                assert(o.contains(m));
                let q = choose|q: int| 0 <= q < o.len() && o[q] == m;
                if q < p {
                    assert(order[q] == m);
                } else {
                    assert(order[q + 1] == m);
                }
            }
        }
        assert forall|i: int, j: int| 0 <= i < j < order.len() implies before(
            names,
            #[trigger] order[i],
            #[trigger] order[j],
        ) by {
            let x = if i < p {
                o[i]
            } else if i == p {
                k
            } else {
                o[i - 1]
            };
            let y = if j < p {
                o[j]
            } else if j == p {
                k
            } else {
                o[j - 1]
            };
            assert(order[i] == x && order[j] == y);
        }
        assert(is_name_order(names, order));
    }
}

/// There is only one way to sort names that keeps equal names in place.
pub proof fn law_name_order_is_unique(names: Seq<Seq<char>>, a: Seq<int>, b: Seq<int>)
    requires
        is_name_order(names, a),
        is_name_order(names, b),
    ensures
        a == b,
{
    lemma_orders_agree(names, a, b, a.len() as int);
    assert(a =~= b);
}

proof fn lemma_orders_agree(names: Seq<Seq<char>>, a: Seq<int>, b: Seq<int>, n: int)
    requires
        is_name_order(names, a),
        is_name_order(names, b),
        0 <= n <= a.len(),
    ensures
        forall|i: int| 0 <= i < n ==> a[i] == b[i],
    decreases n,
{
    if n > 0 {
        let i = n - 1;
        lemma_orders_agree(names, a, b, i);
        if a[i] != b[i] {
            assert(b.contains(a[i]));
            assert(a.contains(b[i]));
            let p = choose|p: int| 0 <= p < b.len() && b[p] == a[i];
            let q = choose|q: int| 0 <= q < a.len() && a[q] == b[i];
            lemma_before(names, a[i], a[i], a[i]);
            lemma_before(names, b[i], b[i], b[i]);
            lemma_before(names, a[i], b[i], a[i]);
            assert(p > i) by {
                if p < i {
                    assert(a[p] == b[p]);
                    assert(before(names, a[p], a[i]));
                }
            }
            assert(q > i) by {
                if q < i {
                    assert(a[q] == b[q]);
                    assert(before(names, b[q], b[i]));
                }
            }
            assert(before(names, b[i], b[p]));
            assert(before(names, a[i], a[q]));
        }
    }
}

/// Whether `v` lists the places from `lo` to `hi`, each once, in the order of
/// the names.
spec fn sorted_range(names: Seq<Seq<char>>, v: Seq<usize>, lo: int, hi: int) -> bool {
    &&& v.len() == hi - lo
    &&& forall|i: int| 0 <= i < v.len() ==> lo <= #[trigger] v[i] < hi
    &&& forall|k: usize| lo <= k < hi ==> #[trigger] v.contains(k)
    &&& forall|i: int, j: int|
        0 <= i < j < v.len() ==> before(names, #[trigger] v[i] as int, #[trigger] v[j] as int)
}

/// Whether `out` holds the first `i` places of `l` and the first `j` of `r`,
/// sorted, all of them before the places that are left.
spec fn merged(
    names: Seq<Seq<char>>,
    l: Seq<usize>,
    i: int,
    r: Seq<usize>,
    j: int,
    out: Seq<usize>,
) -> bool {
    &&& 0 <= i <= l.len()
    &&& 0 <= j <= r.len()
    &&& out.len() == i + j
    &&& forall|a: int| 0 <= a < out.len() ==> l.contains(#[trigger] out[a]) || r.contains(out[a])
    &&& forall|a: int| 0 <= a < i ==> out.contains(#[trigger] l[a])
    &&& forall|b: int| 0 <= b < j ==> out.contains(#[trigger] r[b])
    &&& forall|a: int, b: int|
        0 <= a < b < out.len() ==> before(names, #[trigger] out[a] as int, #[trigger] out[b] as int)
    &&& forall|a: int, b: int|
        0 <= a < out.len() && i <= b < l.len() ==> before(
            names,
            #[trigger] out[a] as int,
            #[trigger] l[b] as int,
        )
    &&& forall|a: int, b: int|
        0 <= a < out.len() && j <= b < r.len() ==> before(
            names,
            #[trigger] out[a] as int,
            #[trigger] r[b] as int,
        )
}

proof fn lemma_merge_left(
    names: Seq<Seq<char>>,
    l: Seq<usize>,
    i: int,
    r: Seq<usize>,
    j: int,
    out: Seq<usize>,
)
    requires
        merged(names, l, i, r, j, out),
        i < l.len(),
        j < r.len() ==> before(names, l[i] as int, r[j] as int),
        forall|a: int, b: int|
            0 <= a < b < l.len() ==> before(names, #[trigger] l[a] as int, #[trigger] l[b] as int),
        forall|a: int, b: int|
            0 <= a < b < r.len() ==> before(names, #[trigger] r[a] as int, #[trigger] r[b] as int),
    ensures
        merged(names, l, i + 1, r, j, out.push(l[i])),
{
    let next = out.push(l[i]);
    assert forall|a: int| 0 <= a < i + 1 implies next.contains(#[trigger] l[a]) by {
        if a < i {
            let p = choose|p: int| 0 <= p < out.len() && out[p] == l[a];
            assert(next[p] == l[a]);
        } else {
            assert(next[out.len() as int] == l[i]);
        }
    }
    assert forall|b: int| 0 <= b < j implies next.contains(#[trigger] r[b]) by {
        let p = choose|p: int| 0 <= p < out.len() && out[p] == r[b];
        assert(next[p] == r[b]);
    }
    assert forall|a: int, b: int| 0 <= a < next.len() && j <= b < r.len() implies before(
        names,
        #[trigger] next[a] as int,
        #[trigger] r[b] as int,
    ) by {
        if a == out.len() {
            lemma_before(names, l[i] as int, r[j] as int, r[b] as int);
            assert(b == j || before(names, r[j] as int, r[b] as int));
        }
    }
}

proof fn lemma_merge_right(
    names: Seq<Seq<char>>,
    l: Seq<usize>,
    i: int,
    r: Seq<usize>,
    j: int,
    out: Seq<usize>,
)
    requires
        merged(names, l, i, r, j, out),
        j < r.len(),
        i < l.len() ==> before(names, r[j] as int, l[i] as int),
        forall|a: int, b: int|
            0 <= a < b < l.len() ==> before(names, #[trigger] l[a] as int, #[trigger] l[b] as int),
        forall|a: int, b: int|
            0 <= a < b < r.len() ==> before(names, #[trigger] r[a] as int, #[trigger] r[b] as int),
    ensures
        merged(names, l, i, r, j + 1, out.push(r[j])),
{
    let next = out.push(r[j]);
    assert forall|a: int| 0 <= a < i implies next.contains(#[trigger] l[a]) by {
        let p = choose|p: int| 0 <= p < out.len() && out[p] == l[a];
        assert(next[p] == l[a]);
    }
    assert forall|b: int| 0 <= b < j + 1 implies next.contains(#[trigger] r[b]) by {
        if b < j {
            let p = choose|p: int| 0 <= p < out.len() && out[p] == r[b];
            assert(next[p] == r[b]);
        } else {
            assert(next[out.len() as int] == r[j]);
        }
    }
    assert forall|a: int, b: int| 0 <= a < next.len() && i <= b < l.len() implies before(
        names,
        #[trigger] next[a] as int,
        #[trigger] l[b] as int,
    ) by {
        if a == out.len() {
            lemma_before(names, r[j] as int, l[i] as int, l[b] as int);
            assert(b == i || before(names, l[i] as int, l[b] as int));
        }
    }
}

fn merge(
    entries: &Vec<(String, String, Attributes)>,
    l: &Vec<usize>,
    r: &Vec<usize>,
    lo: usize,
    mid: usize,
    hi: usize,
) -> (out: Vec<usize>)
    requires
        lo <= mid <= hi <= entries@.len(),
        sorted_range(entry_names(entries@), l@, lo as int, mid as int),
        sorted_range(entry_names(entries@), r@, mid as int, hi as int),
    ensures
        sorted_range(entry_names(entries@), out@, lo as int, hi as int),
{
    let ghost names = entry_names(entries@);
    let mut out: Vec<usize> = Vec::new();
    let mut i: usize = 0;
    let mut j: usize = 0;
    while i < l.len() || j < r.len()
        invariant
            lo <= mid <= hi <= entries@.len(),
            names == entry_names(entries@),
            sorted_range(names, l@, lo as int, mid as int),
            sorted_range(names, r@, mid as int, hi as int),
            merged(names, l@, i as int, r@, j as int, out@),
        decreases l@.len() - i + (r@.len() - j),
    {
        let from_left = if i >= l.len() {
            false
        } else if j >= r.len() {
            true
        } else {
            name_not_after(entries[l[i]].0.as_str(), entries[r[j]].0.as_str())
        };
        proof {
            if i < l.len() && j < r.len() {
                let a = l@[i as int] as int;
                let b = r@[j as int] as int;
                lemma_before(names, a, b, a);
                law_names_are_ordered(names[a], names[b], names[a]);
            }
        }
        if from_left {
            proof {
                lemma_merge_left(names, l@, i as int, r@, j as int, out@);
            }
            out.push(l[i]);
            i += 1;
        } else {
            proof {
                lemma_merge_right(names, l@, i as int, r@, j as int, out@);
            }
            out.push(r[j]);
            j += 1;
        }
    }
    proof {
        assert forall|a: int| 0 <= a < out@.len() implies lo <= #[trigger] out@[a] < hi by {
            if l@.contains(out@[a]) {
                let p = choose|p: int| 0 <= p < l@.len() && l@[p] == out@[a];
                assert(lo <= l@[p] < mid);
            } else {
                let p = choose|p: int| 0 <= p < r@.len() && r@[p] == out@[a];
                assert(mid <= r@[p] < hi);
            }
        }
        assert forall|k: usize| lo <= k < hi implies #[trigger] out@.contains(k) by {
            if k < mid {
                assert(l@.contains(k));
                let p = choose|p: int| 0 <= p < l@.len() && l@[p] == k;
                assert(out@.contains(l@[p]));
            } else {
                assert(r@.contains(k));
                let p = choose|p: int| 0 <= p < r@.len() && r@[p] == k;
                assert(out@.contains(r@[p]));
            }
        }
    }
    out
}

fn sort_range(entries: &Vec<(String, String, Attributes)>, lo: usize, hi: usize) -> (out: Vec<
    usize,
>)
    requires
        lo <= hi <= entries@.len(),
    ensures
        sorted_range(entry_names(entries@), out@, lo as int, hi as int),
    decreases hi - lo,
{
    if hi - lo <= 1 {
        let mut out: Vec<usize> = Vec::new();
        if lo < hi {
            out.push(lo);
            assert(out@[0] == lo);
            assert forall|k: usize| lo <= k < hi implies #[trigger] out@.contains(k) by {
                assert(out@[0] == k);
            }
        }
        return out;
    }
    let mid = lo + (hi - lo) / 2;
    let l = sort_range(entries, lo, mid);
    let r = sort_range(entries, mid, hi);
    merge(entries, &l, &r, lo, mid, hi)
}

/// The names of directory entries.
pub open spec fn entry_names(entries: Seq<(String, String, Attributes)>) -> Seq<Seq<char>> {
    Seq::new(entries.len(), |i: int| entries[i].0@)
}

/// The places of directory entries in the order of their names.
pub fn sort_entries(entries: &Vec<(String, String, Attributes)>) -> (order: Vec<usize>)
    ensures
        order@.map_values(|k: usize| k as int) == name_order(entry_names(entries@)),
        is_name_order(entry_names(entries@), name_order(entry_names(entries@))),
{
    let order = sort_range(entries, 0, entries.len());
    proof {
        reveal(name_order);
        let names = entry_names(entries@);
        let places = order@.map_values(|k: usize| k as int);
        assert forall|k: int| 0 <= k < names.len() implies #[trigger] places.contains(k) by {
            assert(order@.contains(k as usize));
            let p = choose|p: int| 0 <= p < order@.len() && order@[p] == k as usize;
            assert(places[p] == k);
        }
        assert(is_name_order(names, places));
        law_name_order_is_unique(names, places, name_order(names));
    }
    order
}

// The lines of a listing.

/// The names in a listing.
pub open spec fn listed_names(entries: Seq<(Seq<char>, Seq<char>, AttributesView)>) -> Seq<
    Seq<char>,
> {
    Seq::new(entries.len(), |i: int| entries[i].0)
}

/// The lines of entries in the order that is given: their names, or the long
/// lines that the server made of them as far as they are not empty.
pub open spec fn entry_lines(
    entries: Seq<(Seq<char>, Seq<char>, AttributesView)>,
    order: Seq<int>,
    long: bool,
) -> Seq<Seq<char>> {
    if long {
        Seq::new(order.len(), |i: int| entries[order[i]].1).filter(|s: Seq<char>| s.len() > 0)
    } else {
        Seq::new(order.len(), |i: int| entries[order[i]].0)
    }
}

/// The lines of a directory listing, sorted by name.
pub open spec fn listing_lines(
    entries: Seq<(Seq<char>, Seq<char>, AttributesView)>,
    long: bool,
) -> Seq<Seq<char>> {
    entry_lines(entries, name_order(listed_names(entries)), long)
}

/// The lines of a directory listing, sorted by name.
pub fn list_entries(entries: &Vec<(String, String, Attributes)>, long: bool) -> (lines: Vec<String>)
    ensures
        texts(lines@) == listing_lines(crate::reply::entry_views(entries@), long),
{
    let ghost views = crate::reply::entry_views(entries@);
    assert(listed_names(views) =~= entry_names(entries@));
    let order = sort_entries(entries);
    let ghost places = name_order(listed_names(views));
    let ghost long_lines = Seq::new(places.len(), |i: int| views[places[i]].1);
    let ghost names = Seq::new(places.len(), |i: int| views[places[i]].0);
    let ghost kept = |s: Seq<char>| s.len() > 0;
    let mut lines: Vec<String> = Vec::new();
    let mut i: usize = 0;
    proof {
        reveal(Seq::filter);
        assert(long_lines.take(0).filter(kept) =~= texts(lines@));
        assert(names.take(0) =~= texts(lines@));
    }
    while i < order.len()
        invariant
            i <= order@.len(),
            places == order@.map_values(|k: usize| k as int),
            is_name_order(entry_names(entries@), places),
            views == crate::reply::entry_views(entries@),
            long_lines == Seq::new(places.len(), |i: int| views[places[i]].1),
            names == Seq::new(places.len(), |i: int| views[places[i]].0),
            kept == (|s: Seq<char>| s.len() > 0),
            long ==> texts(lines@) == long_lines.take(i as int).filter(kept),
            !long ==> texts(lines@) == names.take(i as int),
        decreases order@.len() - i,
    {
        let ghost before = lines@;
        proof {
            reveal(Seq::filter);
            assert(places[i as int] == order@[i as int] as int);
            assert(long_lines.take(i + 1).drop_last() =~= long_lines.take(i as int));
            assert(names.take(i + 1) =~= names.take(i as int).push(names[i as int]));
        }
        let k = order[i];
        assert(k < entries@.len());
        if long {
            if !entries[k].1.as_str().is_empty() {
                lines.push(entries[k].1.clone());
                assert(texts(lines@) =~= texts(before).push(views[k as int].1));
            }
        } else {
            lines.push(entries[k].0.clone());
            assert(texts(lines@) =~= texts(before).push(views[k as int].0));
        }
        i += 1;
    }
    assert(long_lines.take(i as int) =~= long_lines);
    assert(names.take(i as int) =~= names);
    lines
}

// Attributes for the eye.

/// Whether attributes are those of a directory.
pub open spec fn is_directory(a: AttributesView) -> bool {
    a.permissions matches Some(p) && p & 0o170000 == 0o040000
}

/// Whether attributes are those of a directory.
pub fn is_dir(attrs: &Attributes) -> (r: bool)
    ensures
        r == is_directory(attrs@),
{
    match attrs.permissions {
        Some(p) => (p & 0o170000) == 0o040000,
        None => false,
    }
}

/// The line for one file: permissions in octal, size, path.
pub open spec fn long_line(path: Seq<char>, a: AttributesView) -> Seq<char> {
    (match a.permissions {
        Some(p) => octal(p as nat),
        None => "?"@,
    }) + " "@ + (match a.size {
        Some(s) => decimal(s as nat),
        None => "-"@,
    }) + " "@ + path
}

/// The line for one file: permissions in octal, size, path.
pub fn format_long(path: &str, attrs: &Attributes) -> (line: String)
    ensures
        line@ == long_line(path@, attrs@),
{
    let mut line = String::from_str("");
    proof {
        reveal_strlit("");
    }
    match attrs.permissions {
        Some(p) => {
            push_octal(&mut line, p as u64);
            assert(line@ =~= octal(p as nat));
        },
        None => {
            line.append("?");
            assert(line@ =~= "?"@);
        },
    }
    line.append(" ");
    match attrs.size {
        Some(s) => {
            push_decimal(&mut line, s);
        },
        None => {
            line.append("-");
        },
    }
    line.append(" ");
    line.append(path);
    line
}

/// The first lines about a path: its name, its size, its permissions.
pub open spec fn size_lines(path: Seq<char>, a: AttributesView) -> Seq<Seq<char>> {
    seq![path + ":"@] + (match a.size {
        Some(s) => seq!["  size: "@ + decimal(s as nat)],
        None => seq![],
    }) + (match a.permissions {
        Some(p) => seq!["  permissions: "@ + octal(p as nat)],
        None => seq![],
    })
}

/// The lines about who owns a path, by number and by name.
pub open spec fn owner_lines(a: AttributesView) -> Seq<Seq<char>> {
    (match (a.uid, a.gid) {
        (Some(u), Some(g)) => seq!["  uid/gid: "@ + decimal(u as nat) + "/"@ + decimal(g as nat)],
        _ => seq![],
    }) + (match (a.owner, a.group) {
        (Some(o), Some(g)) => seq!["  owner/group: "@ + o + "/"@ + g],
        _ => seq![],
    })
}

/// The line about when a path was last modified.
pub open spec fn time_lines(a: AttributesView) -> Seq<Seq<char>> {
    match a.modify_time {
        Some(t) => seq!["  mtime: "@ + decimal(t.0 as nat)],
        None => seq![],
    }
}

/// What there is to say about a path: one line for each thing that is known.
pub open spec fn attr_lines(path: Seq<char>, a: AttributesView) -> Seq<Seq<char>> {
    size_lines(path, a) + owner_lines(a) + time_lines(a)
}

fn put_size_lines(lines: &mut Vec<String>, path: &str, attrs: &Attributes)
    ensures
        texts(final(lines)@) == texts(old(lines)@) + size_lines(path@, attrs@),
{
    let ghost start = lines@;
    let mut line = String::from_str(path);
    line.append(":");
    lines.push(line);
    assert(texts(lines@) =~= texts(start) + seq![path@ + ":"@]);
    if let Some(s) = attrs.size {
        let ghost at = lines@;
        let mut line = String::from_str("  size: ");
        push_decimal(&mut line, s);
        lines.push(line);
        assert(texts(lines@) =~= texts(at) + seq!["  size: "@ + decimal(s as nat)]);
    }
    if let Some(p) = attrs.permissions {
        let ghost at = lines@;
        let mut line = String::from_str("  permissions: ");
        push_octal(&mut line, p as u64);
        lines.push(line);
        assert(texts(lines@) =~= texts(at) + seq!["  permissions: "@ + octal(p as nat)]);
    }
    assert(texts(lines@) =~= texts(start) + size_lines(path@, attrs@));
}

fn put_owner_lines(lines: &mut Vec<String>, attrs: &Attributes)
    ensures
        texts(final(lines)@) == texts(old(lines)@) + owner_lines(attrs@),
{
    let ghost start = lines@;
    if let (Some(uid), Some(gid)) = (attrs.uid, attrs.gid) {
        let mut line = String::from_str("  uid/gid: ");
        push_decimal(&mut line, uid as u64);
        line.append("/");
        push_decimal(&mut line, gid as u64);
        lines.push(line);
        assert(texts(lines@) =~= texts(start) + seq![
            "  uid/gid: "@ + decimal(uid as nat) + "/"@ + decimal(gid as nat),
        ]);
    }
    if let (Some(owner), Some(group)) = (&attrs.owner, &attrs.group) {
        let ghost at = lines@;
        let mut line = String::from_str("  owner/group: ");
        line.append(owner.as_str());
        line.append("/");
        line.append(group.as_str());
        lines.push(line);
        assert(texts(lines@) =~= texts(at) + seq!["  owner/group: "@ + owner@ + "/"@ + group@]);
    }
    assert(texts(lines@) =~= texts(start) + owner_lines(attrs@));
}

/// What there is to say about a path.
pub fn describe(path: &str, attrs: &Attributes) -> (lines: Vec<String>)
    ensures
        texts(lines@) == attr_lines(path@, attrs@),
{
    let mut lines: Vec<String> = Vec::new();
    put_size_lines(&mut lines, path, attrs);
    put_owner_lines(&mut lines, attrs);
    if let Some(t) = attrs.modify_time {
        let ghost at = lines@;
        let mut line = String::from_str("  mtime: ");
        push_decimal(&mut line, t.0);
        lines.push(line);
        assert(texts(lines@) =~= texts(at) + seq!["  mtime: "@ + decimal(t.0 as nat)]);
    }
    assert(texts(lines@) =~= attr_lines(path@, attrs@));
    lines
}

} // verus!
