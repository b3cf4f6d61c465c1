//! The last component of a path.

use vstd::prelude::*;

use crate::command::opt_view;

verus! {

/// A path that means the same wherever `/` separates components: without a
/// backslash, without a colon, and not with two slashes at its start.
pub open spec fn plain_path(p: Seq<char>) -> bool {
    &&& !p.contains('\\')
    &&& !p.contains(':')
    &&& !(p.len() >= 2 && p[0] == '/' && p[1] == '/')
}

/// Where the text behind the last slash of a path begins.
pub open spec fn tail_start(p: Seq<char>) -> int
    decreases p.len(),
{
    if p.len() == 0 || p.last() == '/' {
        p.len() as int
    } else {
        tail_start(p.drop_last())
    }
}

/// The last component of a plain path. Slashes at the end, and components that
/// stay at the same place, are passed over; a path that goes up at its end has
/// none.
pub open spec fn last_name(p: Seq<char>) -> Option<Seq<char>>
    decreases p.len(),
{
    if p.len() == 0 {
        None
    } else if p.last() == '/' || p.skip(tail_start(p)) == "."@ {
        last_name(p.drop_last())
    } else if p.skip(tail_start(p)) == ".."@ {
        None
    } else {
        Some(p.skip(tail_start(p)))
    }
}

/// Whether `name` stands in `path` from place `i` on, as its last component:
/// at the start or behind a separator, and with nothing behind it but
/// separators and components that mean the same place.
pub open spec fn is_last_at(path: Seq<char>, name: Seq<char>, i: int) -> bool {
    &&& 0 <= i && i + name.len() <= path.len()
    &&& path.subrange(i, i + name.len()) == name
    &&& i == 0 || path[i - 1] == '/' || path[i - 1] == '\\' || path[i - 1] == ':'
    &&& forall|j: int|
        i + name.len() <= j < path.len() ==> #[trigger] path[j] == '/' || path[j] == '\\'
            || path[j] == '.'
}

/// Whether `name` can be the last component of `path`.
pub open spec fn is_last_component(path: Seq<char>, name: Seq<char>) -> bool {
    name.len() > 0 && exists|i: int| #[trigger] is_last_at(path, name, i)
}

/// Whether this can be found to be the last component of `path`. Of a plain
/// path there is one answer only.
pub open spec fn can_be_found(path: Seq<char>, name: Option<Seq<char>>) -> bool {
    &&& (name matches Some(n) ==> is_last_component(path, n))
    &&& (plain_path(path) ==> name == last_name(path))
}

/// `std::path::Path::file_name`: the last component of a path, if it has one.
/// Of a plain path it is the text behind the last slash, when slashes at the
/// end and components `.` have been taken away; a path that ends in `..`, and
/// one of which nothing is left, have none. So it is on Unix and on Windows
/// alike. Other paths mean different things on different platforms; of those it
/// is only said that the component is a part of the path that is not empty,
/// behind which there are only separators and dots.
#[verifier::external_body]
pub(crate) fn file_name(path: &str) -> (name: Option<String>)
    ensures
        name matches Some(n) ==> is_last_component(path@, n@),
        plain_path(path@) ==> opt_view(name) == last_name(path@),
{
    match std::path::Path::new(path).file_name() {
        Some(n) => Some(n.to_string_lossy().into_owned()),
        None => None,
    }
}

proof fn lemma_tail(p: Seq<char>)
    ensures
        0 <= tail_start(p) <= p.len(),
        tail_start(p) == 0 || p[tail_start(p) - 1] == '/',
        forall|i: int| tail_start(p) <= i < p.len() ==> #[trigger] p[i] != '/',
    decreases p.len(),
{
    if p.len() > 0 && p.last() != '/' {
        let q = p.drop_last();
        lemma_tail(q);
        assert(tail_start(q) == 0 || p[tail_start(q) - 1] == q[tail_start(q) - 1]);
        assert forall|i: int| tail_start(p) <= i < p.len() implies #[trigger] p[i] != '/' by {
            assert(i == p.len() - 1 || p[i] == q[i]);
        }
    }
}

proof fn lemma_tail_is(dir: Seq<char>, n: Seq<char>)
    requires
        dir.len() == 0 || dir.last() == '/',
        !n.contains('/'),
    ensures
        tail_start(dir + n) == dir.len(),
    decreases n.len(),
{
    let p = dir + n;
    if n.len() == 0 {
        assert(p =~= dir);
    } else {
        let m = n.drop_last();
        assert(p.drop_last() =~= dir + m);
        assert(p.last() == n.last());
        assert(n.contains(n.last()));
        assert forall|c: char| m.contains(c) implies n.contains(c) by {
            let i = m.index_of(c);
            assert(n[i] == c);
        }
        lemma_tail_is(dir, m);
    }
}

/// The last component of a path is what was put behind its last slash, or the
/// whole path if it has none.
pub proof fn law_last_name_stands_last(dir: Seq<char>, n: Seq<char>)
    requires
        n.len() > 0,
        !n.contains('/'),
        n != "."@,
        n != ".."@,
    ensures
        last_name(n) == Some(n),
        last_name(dir + "/"@ + n) == Some(n),
{
    reveal_strlit("/");
    let d = dir + "/"@;
    let p = d + n;
    lemma_tail_is(seq![], n);
    assert(seq![] + n =~= n);
    assert(n.skip(0) =~= n);
    assert(n.contains(n.last()));
    lemma_tail_is(d, n);
    assert(p.skip(d.len() as int) =~= n);
    assert(p.last() == n.last());
}

/// A slash at the end of a path, and a component that stays at the same place,
/// do not change its last component.
pub proof fn law_last_name_ignores_the_end(p: Seq<char>)
    ensures
        last_name(p + "/"@) == last_name(p),
        last_name(p + "/."@) == last_name(p),
{
    reveal_strlit("/");
    reveal_strlit("/.");
    reveal_strlit(".");
    let slash = p + "/"@;
    assert(slash.drop_last() =~= p);
    let dot = p + "/."@;
    assert(dot =~= slash + "."@);
    assert(dot.drop_last() =~= slash);
    assert(!"."@.contains('/'));
    lemma_tail_is(slash, "."@);
    assert(dot.skip(slash.len() as int) =~= "."@);
}

/// A path that goes up at its end has no last component.
pub proof fn law_way_up_has_no_name(dir: Seq<char>)
    ensures
        last_name(".."@) is None,
        last_name(dir + "/.."@) is None,
{
    reveal_strlit("/");
    reveal_strlit("/..");
    reveal_strlit("..");
    reveal_strlit(".");
    let d = dir + "/"@;
    let p = dir + "/.."@;
    assert(p =~= d + ".."@);
    assert(!".."@.contains('/'));
    lemma_tail_is(d, ".."@);
    assert(p.skip(d.len() as int) =~= ".."@);
    assert(".."@.len() != "."@.len());
    lemma_tail_is(seq![], ".."@);
    assert(seq![] + ".."@ =~= ".."@);
    assert(".."@.skip(0) =~= ".."@);
}

/// The last component of a plain path is a part of it that stands last.
pub proof fn law_last_name_is_a_component(p: Seq<char>)
    ensures
        last_name(p) matches Some(n) ==> is_last_component(p, n),
    decreases p.len(),
{
    reveal_strlit(".");
    if p.len() > 0 {
        let t = tail_start(p);
        lemma_tail(p);
        if p.last() == '/' || p.skip(t) == "."@ {
            let q = p.drop_last();
            law_last_name_is_a_component(q);
            if p.last() != '/' {
                assert(p.skip(t).len() == 1 && p.skip(t)[0] == p[t]);
                assert("."@[0] == '.');
                assert(p.last() == '.');
            }
            if let Some(n) = last_name(q) {
                let i = choose|i: int| #[trigger] is_last_at(q, n, i);
                assert(p.subrange(i, i + n.len()) =~= q.subrange(i, i + n.len()));
                assert forall|j: int| i + n.len() <= j < p.len() implies #[trigger] p[j] == '/'
                    || p[j] == '\\' || p[j] == '.' by {
                    assert(j == p.len() - 1 || q[j] == p[j]);
                }
                assert(i == 0 || p[i - 1] == q[i - 1]);
                assert(is_last_at(p, n, i));
            }
        } else if p.skip(t) != ".."@ {
            assert(p.subrange(t, t + p.skip(t).len()) =~= p.skip(t));
            assert(is_last_at(p, p.skip(t), t));
        }
    }
}

} // verus!
