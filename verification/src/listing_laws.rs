//! What listings and descriptions show.

use vstd::prelude::*;
use vstd::utf8::encode_utf8;

use crate::attributes::AttributesView;
use crate::listing::{
    attr_lines, bytes_le, is_directory, is_name_order, law_names_are_ordered,
    law_names_can_be_sorted, listed_names, listing_lines, long_line, name_le, name_order,
};
use crate::text::{decimal, digit, octal, radix};

verus! {

// The order of names.

proof fn lemma_bytes_differ_at(x: Seq<u8>, y: Seq<u8>, i: int)
    requires
        0 <= i < x.len(),
        i < y.len(),
        forall|j: int| 0 <= j < i ==> x[j] == y[j],
        x[i] != y[i],
    ensures
        bytes_le(x, y) == (x[i] < y[i]),
    decreases i,
{
    if i > 0 {
        assert(x[0] == y[0]);
        let x1 = x.drop_first();
        let y1 = y.drop_first();
        assert forall|j: int| 0 <= j < i - 1 implies x1[j] == y1[j] by {
            assert(x[j + 1] == y[j + 1]);
        }
        lemma_bytes_differ_at(x1, y1, i - 1);
    }
}

proof fn lemma_beginning_comes_first(x: Seq<u8>, y: Seq<u8>)
    requires
        x.len() <= y.len(),
        forall|j: int| 0 <= j < x.len() ==> x[j] == y[j],
    ensures
        bytes_le(x, y),
        x.len() < y.len() ==> !bytes_le(y, x),
    decreases x.len(),
{
    if x.len() > 0 {
        let x1 = x.drop_first();
        let y1 = y.drop_first();
        assert(x[0] == y[0]);
        assert forall|j: int| 0 <= j < x1.len() implies x1[j] == y1[j] by {
            assert(x[j + 1] == y[j + 1]);
        }
        lemma_beginning_comes_first(x1, y1);
    }
}

/// Of two names the first byte in which they differ decides: the one with the
/// smaller byte there comes first.
pub proof fn law_first_difference_decides(a: Seq<char>, b: Seq<char>, i: int)
    requires
        0 <= i < encode_utf8(a).len(),
        i < encode_utf8(b).len(),
        forall|j: int| 0 <= j < i ==> encode_utf8(a)[j] == encode_utf8(b)[j],
        encode_utf8(a)[i] != encode_utf8(b)[i],
    ensures
        name_le(a, b) == (encode_utf8(a)[i] < encode_utf8(b)[i]),
        name_le(b, a) == (encode_utf8(b)[i] < encode_utf8(a)[i]),
{
    reveal(name_le);
    lemma_bytes_differ_at(encode_utf8(a), encode_utf8(b), i);
    lemma_bytes_differ_at(encode_utf8(b), encode_utf8(a), i);
}

/// A name comes before the longer names that begin with it.
pub proof fn law_beginnings_come_first(a: Seq<char>, b: Seq<char>)
    requires
        encode_utf8(a).len() <= encode_utf8(b).len(),
        forall|j: int| 0 <= j < encode_utf8(a).len() ==> encode_utf8(a)[j] == encode_utf8(b)[j],
    ensures
        name_le(a, b),
        encode_utf8(a).len() < encode_utf8(b).len() ==> !name_le(b, a),
{
    reveal(name_le);
    lemma_beginning_comes_first(encode_utf8(a), encode_utf8(b));
}

/// Whether `order` visits every entry once, by name, and entries of the same
/// name in the order in which they came.
pub open spec fn visits_by_name(
    entries: Seq<(Seq<char>, Seq<char>, AttributesView)>,
    order: Seq<int>,
) -> bool {
    &&& order.len() == entries.len()
    &&& forall|i: int| 0 <= i < order.len() ==> 0 <= #[trigger] order[i] < entries.len()
    &&& forall|k: int| 0 <= k < entries.len() ==> #[trigger] order.contains(k)
    &&& forall|i: int, j: int|
        0 <= i < j < order.len() ==> name_le(
            entries[#[trigger] order[i]].0,
            entries[#[trigger] order[j]].0,
        )
    &&& forall|i: int, j: int|
        0 <= i < j < order.len() && entries[#[trigger] order[i]].0 == entries[#[trigger] order[j]].0
            ==> order[i] < order[j]
}

/// A listing shows every entry once, sorted by name; entries of the same name
/// stay as they came. Short lines are the names. Long lines are those that the
/// server made; one that is empty is left out.
pub proof fn law_listing_is_sorted_by_name(entries: Seq<(Seq<char>, Seq<char>, AttributesView)>)
    ensures
        exists|order: Seq<int>|
            {
                &&& #[trigger] visits_by_name(entries, order)
                &&& listing_lines(entries, false) == Seq::new(
                    order.len(),
                    |i: int| entries[order[i]].0,
                )
                &&& listing_lines(entries, true) == Seq::new(
                    order.len(),
                    |i: int| entries[order[i]].1,
                ).filter(|s: Seq<char>| s.len() > 0)
            },
{
    let names = listed_names(entries);
    let order = name_order(names);
    law_names_can_be_sorted(names);
    assert(is_name_order(names, order));
    assert forall|i: int, j: int| 0 <= i < j < order.len() implies name_le(
        entries[#[trigger] order[i]].0,
        entries[#[trigger] order[j]].0,
    ) by {
        law_names_are_ordered(names[order[i]], names[order[j]], names[order[i]]);
    }
    assert(visits_by_name(entries, order));
    assert(listing_lines(entries, false) =~= Seq::new(order.len(), |i: int| entries[order[i]].0));
}

/// The names of a short listing stand in order, and there are as many as
/// entries.
pub proof fn law_short_lines_are_in_order(
    entries: Seq<(Seq<char>, Seq<char>, AttributesView)>,
    i: int,
    j: int,
)
    requires
        0 <= i < j < entries.len(),
    ensures
        listing_lines(entries, false).len() == entries.len(),
        name_le(listing_lines(entries, false)[i], listing_lines(entries, false)[j]),
{
    law_listing_is_sorted_by_name(entries);
    let order = choose|order: Seq<int>|
        {
            &&& #[trigger] visits_by_name(entries, order)
            &&& listing_lines(entries, false) == Seq::new(
                order.len(),
                |i: int| entries[order[i]].0,
            )
            &&& listing_lines(entries, true) == Seq::new(
                order.len(),
                |i: int| entries[order[i]].1,
            ).filter(|s: Seq<char>| s.len() > 0)
        };
    assert(name_le(entries[order[i]].0, entries[order[j]].0));
}

// Numbers.

/// The number that digits stand for in a base.
pub open spec fn number_of(s: Seq<char>, base: nat) -> nat
    decreases s.len(),
{
    if s.len() == 0 {
        0
    } else {
        number_of(s.drop_last(), base) * base + (s.last() as nat - '0' as nat) as nat
    }
}

proof fn lemma_digits(n: nat, base: nat)
    requires
        2 <= base <= 10,
    ensures
        radix(n, base).len() > 0,
        forall|i: int|
            0 <= i < radix(n, base).len() ==> '0' <= #[trigger] radix(n, base)[i] <= digit(
                (base - 1) as nat,
            ),
        number_of(radix(n, base), base) == n,
        radix(n, base)[0] == '0' ==> n == 0,
        n < base ==> radix(n, base).len() == 1,
    decreases n,
{
    let s = radix(n, base);
    if n < base {
        assert(s =~= seq![digit(n)]);
        assert(s.drop_last() =~= seq![]);
        assert(number_of(s.drop_last(), base) == 0);
        assert(0 * base == 0) by (nonlinear_arith);
    } else {
        let q = n / base;
        let r = n % base;
        assert(q < n && q >= 1 && r < base && q * base + r == n) by (nonlinear_arith)
            requires
                2 <= base <= n,
                q == n / base,
                r == n % base,
        ;
        lemma_digits(q, base);
        let t = radix(q, base);
        assert(s =~= t.push(digit(r)));
        assert(s.drop_last() =~= t);
        assert(s[0] == t[0]);
        assert forall|i: int| 0 <= i < s.len() implies '0' <= #[trigger] s[i] <= digit(
            (base - 1) as nat,
        ) by {
            if i < t.len() {
                assert(s[i] == t[i]);
            }
        }
    }
}

/// Sizes and counts are shown in decimal and permissions in octal: the digits
/// stand for the number, and the first one is zero only of zero itself.
pub proof fn law_digits_stand_for_the_number(n: nat)
    ensures
        number_of(decimal(n), 10) == n,
        number_of(octal(n), 8) == n,
        forall|i: int| 0 <= i < decimal(n).len() ==> '0' <= #[trigger] decimal(n)[i] <= '9',
        forall|i: int| 0 <= i < octal(n).len() ==> '0' <= #[trigger] octal(n)[i] <= '7',
        decimal(n).len() > 0,
        octal(n).len() > 0,
        decimal(n)[0] == '0' ==> n == 0 && decimal(n).len() == 1,
        octal(n)[0] == '0' ==> n == 0 && octal(n).len() == 1,
{
    lemma_digits(n, 10);
    lemma_digits(n, 8);
}

// Attributes.

/// A path is a directory just when its permissions are known and the four bits
/// above the lowest twelve hold the number four.
pub proof fn law_directories_by_their_mode(a: AttributesView)
    ensures
        a.permissions is None ==> !is_directory(a),
        a.permissions is Some ==> is_directory(a) == ((a.permissions->0 / 4096) % 16 == 4),
{
    if let Some(p) = a.permissions {
        assert((p & 0o170000u32 == 0o040000u32) == ((p / 4096) % 16 == 4)) by (bit_vector);
    }
}

/// The long line of one file: permissions, size and path, a space between them;
/// what is not known is a mark.
pub proof fn law_long_line_shows_mode_size_and_path(path: Seq<char>, a: AttributesView)
    ensures
        long_line(path, a) == (if a.permissions is Some {
            octal(a.permissions->0 as nat)
        } else {
            "?"@
        }) + " "@ + (if a.size is Some {
            decimal(a.size->0 as nat)
        } else {
            "-"@
        }) + " "@ + path,
{
}

/// A line, if there is something to show.
pub open spec fn line_if(present: bool, line: Seq<char>) -> Seq<Seq<char>> {
    if present {
        seq![line]
    } else {
        seq![]
    }
}

/// The description of a path: its name, and then a line for each of size,
/// permissions, numeric ids, owner and group, and the time of the last change,
/// as far as they are known.
pub proof fn law_description_shows_what_is_known(path: Seq<char>, a: AttributesView)
    ensures
        attr_lines(path, a) == seq![path + ":"@] + line_if(
            a.size is Some,
            "  size: "@ + decimal(a.size->0 as nat),
        ) + line_if(a.permissions is Some, "  permissions: "@ + octal(a.permissions->0 as nat))
            + line_if(
            a.uid is Some && a.gid is Some,
            "  uid/gid: "@ + decimal(a.uid->0 as nat) + "/"@ + decimal(a.gid->0 as nat),
        ) + line_if(
            a.owner is Some && a.group is Some,
            "  owner/group: "@ + a.owner->0 + "/"@ + a.group->0,
        ) + line_if(
            a.modify_time is Some,
            "  mtime: "@ + decimal(seconds_of(a.modify_time) as nat),
        ),
{
    let head = seq![path + ":"@];
    let size = line_if(a.size is Some, "  size: "@ + decimal(a.size->0 as nat));
    let perm = line_if(
        a.permissions is Some,
        "  permissions: "@ + octal(a.permissions->0 as nat),
    );
    let ids = line_if(
        a.uid is Some && a.gid is Some,
        "  uid/gid: "@ + decimal(a.uid->0 as nat) + "/"@ + decimal(a.gid->0 as nat),
    );
    let names = line_if(
        a.owner is Some && a.group is Some,
        "  owner/group: "@ + a.owner->0 + "/"@ + a.group->0,
    );
    let time = line_if(
        a.modify_time is Some,
        "  mtime: "@ + decimal(seconds_of(a.modify_time) as nat),
    );
    assert(crate::listing::size_lines(path, a) == head + size + perm);
    assert(crate::listing::owner_lines(a) == ids + names);
    assert(crate::listing::time_lines(a) == time);
    assert(head + size + perm + (ids + names) + time =~= head + size + perm + ids + names + time);
}

/// The seconds of a time.
pub open spec fn seconds_of(o: Option<(u64, Option<u32>)>) -> u64 {
    match o {
        Some((secs, _)) => secs,
        None => 0,
    }
}

} // verus!
