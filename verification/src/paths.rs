//! Paths, read and put together by `std::path` on the target platform's rules.

use vstd::prelude::*;

verus! {

/// The relative path that is left of `path` once the leading components
/// `base` are taken off (`Path::strip_prefix`, by the path rules of the target
/// platform), or `None` where `base` does not lead `path`.
pub uninterp spec fn path_relative_to(path: Seq<char>, base: Seq<char>) -> Option<Seq<char>>;

/// The path `base` joined with `rel` (`Path::join`, by the path rules of the target platform).
pub uninterp spec fn path_joined(base: Seq<char>, rel: Seq<char>) -> Seq<char>;

/// `Path::strip_prefix`, with the relative path read back as text.
#[verifier::external_body]
pub(crate) fn strip_path_prefix(path: &str, base: &str) -> (r: Option<String>)
    ensures
        match path_relative_to(path@, base@) {
            Some(rel) => r matches Some(x) && x@ == rel,
            None => r is None,
        },
{
    std::path::Path::new(path).strip_prefix(base).ok().map(|rel| rel.to_string_lossy().into_owned())
}

/// `Path::join`, read back as text.
#[verifier::external_body]
pub(crate) fn join_path(base: &str, rel: &str) -> (r: String)
    ensures
        r@ == path_joined(base@, rel@),
{
    std::path::Path::new(base).join(rel).to_string_lossy().into_owned()
}

/// The extension of the path's file name (`Path::extension`), where there is
/// one and it is valid text.
pub uninterp spec fn path_extension(path: Seq<char>) -> Option<Seq<char>>;

/// `Path::extension`, read back as text.
#[verifier::external_body]
pub(crate) fn extension_of(path: &str) -> (r: Option<String>)
    ensures
        match path_extension(path@) {
            Some(e) => r matches Some(x) && x@ == e,
            None => r is None,
        },
{
    std::path::Path::new(path).extension().and_then(|e| e.to_str()).map(|e| e.to_owned())
}

/// The last component of the path (`Path::file_name`), where there is one.
pub uninterp spec fn path_file_name(path: Seq<char>) -> Option<Seq<char>>;

/// `Path::file_name`, read back as text.
#[verifier::external_body]
pub(crate) fn file_name_of(path: &str) -> (r: Option<String>)
    ensures
        match path_file_name(path@) {
            Some(n) => r matches Some(x) && x@ == n,
            None => r is None,
        },
{
    std::path::Path::new(path).file_name().and_then(|n| n.to_str()).map(|n| n.to_owned())
}

/// Whether `base` is a leading run of whole components of `path` (`Path::starts_with`).
pub uninterp spec fn path_has_base(path: Seq<char>, base: Seq<char>) -> bool;

/// `Path::starts_with`.
#[verifier::external_body]
pub(crate) fn path_starts_with(path: &str, base: &str) -> (r: bool)
    ensures
        r == path_has_base(path@, base@),
{
    std::path::Path::new(path).starts_with(base)
}

/// Whether the path is absolute (`Path::is_absolute`).
pub uninterp spec fn path_absolute(path: Seq<char>) -> bool;

/// `Path::is_absolute`.
#[verifier::external_body]
pub(crate) fn is_absolute_path(path: &str) -> (r: bool)
    ensures
        r == path_absolute(path@),
{
    std::path::Path::new(path).is_absolute()
}

/// Whether one of the path's components is `..` (`Component::ParentDir`).
pub uninterp spec fn path_climbs(path: Seq<char>) -> bool;

/// Whether one of the path's components (`Path::components`) is `..`.
#[verifier::external_body]
pub(crate) fn has_parent_component(path: &str) -> (r: bool)
    ensures
        r == path_climbs(path@),
{
    std::path::Path::new(path).components().any(|c| matches!(c, std::path::Component::ParentDir))
}

/// Whether `a` comes before `b` in `Path`'s order (component by component).
pub uninterp spec fn path_precedes(a: Seq<char>, b: Seq<char>) -> bool;

/// `Path < Path`.
#[verifier::external_body]
pub(crate) fn path_less(a: &str, b: &str) -> (r: bool)
    ensures
        r == path_precedes(a@, b@),
{
    std::path::Path::new(a) < std::path::Path::new(b)
}

/// Whether two paths are equal as `Path`s (component by component).
pub uninterp spec fn path_same(a: Seq<char>, b: Seq<char>) -> bool;

/// `Path == Path`.
#[verifier::external_body]
pub(crate) fn path_eq(a: &str, b: &str) -> (r: bool)
    ensures
        r == path_same(a@, b@),
{
    std::path::Path::new(a) == std::path::Path::new(b)
}

/// `s` (in `Path` order) with `x` placed after every path that `x` does not precede.
pub open spec fn insert_path(s: Seq<Seq<char>>, x: Seq<char>) -> Seq<Seq<char>>
    decreases s.len(),
{
    if s.len() > 0 && path_precedes(x, s.last()) {
        insert_path(s.drop_last(), x).push(s.last())
    } else {
        s.push(x)
    }
}

/// The paths sorted in `Path` order, equal ones kept in their order.
pub open spec fn sorted_paths(s: Seq<Seq<char>>) -> Seq<Seq<char>>
    decreases s.len(),
{
    if s.len() == 0 {
        Seq::empty()
    } else {
        insert_path(sorted_paths(s.drop_last()), s.last())
    }
}

/// The paths with each one dropped that equals the path kept just before it (`Vec::dedup`).
pub open spec fn deduped_paths(s: Seq<Seq<char>>) -> Seq<Seq<char>>
    decreases s.len(),
{
    if s.len() == 0 {
        Seq::empty()
    } else {
        let prev = deduped_paths(s.drop_last());
        if prev.len() > 0 && path_same(s.last(), prev.last()) {
            prev
        } else {
            prev.push(s.last())
        }
    }
}

/// Sorts paths in `Path` order, keeping equal ones in order.
pub fn sort_paths(v: Vec<String>) -> (r: Vec<String>)
    ensures
        r@.map_values(|p: String| p@) == sorted_paths(v@.map_values(|p: String| p@)),
        paths_in_order(r@.map_values(|p: String| p@)),
{
    proof {
        lemma_sorted_paths_in_order(v@.map_values(|p: String| p@));
    }
    let ghost all = v@.map_values(|p: String| p@);
    let mut out: Vec<String> = Vec::new();
    for x in it: v
        invariant
            it.seq().map_values(|p: String| p@) == all,
            out@.map_values(|p: String| p@) == sorted_paths(all.take(it.index() as int)),
    {
        let ghost i = it.index() as int;
        assert(all.take(i + 1).drop_last() =~= all.take(i));
        assert(all.take(i + 1).last() == x@);
        let ghost ov = out@.map_values(|p: String| p@);
        let mut j = out.len();
        assert(ov.take(j as int) =~= ov);
        assert(ov.skip(j as int) =~= Seq::<Seq<char>>::empty());
        assert(insert_path(ov, x@) + Seq::<Seq<char>>::empty() =~= insert_path(ov, x@));
        while j > 0 && path_less(x.as_str(), out[j - 1].as_str())
            invariant
                j <= out.len(),
                ov == out@.map_values(|p: String| p@),
                insert_path(ov, x@) == insert_path(ov.take(j as int), x@) + ov.skip(j as int),
            decreases j,
        {
            let ghost t = ov.take(j as int);
            assert(t.drop_last() =~= ov.take(j - 1));
            assert(t.last() == ov[j - 1]);
            assert(ov.skip(j - 1) =~= seq![ov[j - 1]] + ov.skip(j as int));
            assert(insert_path(ov.take(j - 1), x@).push(ov[j - 1]) + ov.skip(j as int) =~= insert_path(
                ov.take(j - 1),
                x@,
            ) + ov.skip(j - 1));
            j = j - 1;
        }
        let ghost xv = x@;
        out.insert(j, x);
        assert(out@.map_values(|p: String| p@) =~= ov.take(j as int).push(xv) + ov.skip(j as int));
    }
    assert(all.take(all.len() as int) =~= all);
    out
}

/// Drops each path that equals the path kept just before it.
pub fn dedup_paths(v: Vec<String>) -> (r: Vec<String>)
    ensures
        r@.map_values(|p: String| p@) == deduped_paths(v@.map_values(|p: String| p@)),
        no_neighbour_repeats(r@.map_values(|p: String| p@)),
{
    proof {
        lemma_deduped_paths_no_repeats(v@.map_values(|p: String| p@));
    }
    let ghost all = v@.map_values(|p: String| p@);
    let mut out: Vec<String> = Vec::new();
    for x in it: v
        invariant
            it.seq().map_values(|p: String| p@) == all,
            out@.map_values(|p: String| p@) == deduped_paths(all.take(it.index() as int)),
    {
        let ghost i = it.index() as int;
        assert(all.take(i + 1).drop_last() =~= all.take(i));
        assert(all.take(i + 1).last() == x@);
        let ghost ov = out@.map_values(|p: String| p@);
        let keep = out.len() == 0 || !path_eq(x.as_str(), out[out.len() - 1].as_str());
        if keep {
            let ghost xv = x@;
            out.push(x);
            assert(out@.map_values(|p: String| p@) =~= ov.push(xv));
        }
    }
    assert(all.take(all.len() as int) =~= all);
    out
}


/// Whether the neighbours at `i` and `i + 1` stand in `Path` order: the first
/// precedes the second, or at least the second does not precede the first.
pub open spec fn neighbours_in_order(s: Seq<Seq<char>>, i: int) -> bool {
    path_precedes(s[i], s[i + 1]) || !path_precedes(s[i + 1], s[i])
}

/// Whether every two neighbours stand in `Path` order.
pub open spec fn paths_in_order(s: Seq<Seq<char>>) -> bool {
    forall|i: int| 0 <= i && i + 1 < s.len() ==> #[trigger] neighbours_in_order(s, i)
}

/// Whether no path equals (`Path ==`) the one just before it.
pub open spec fn no_neighbour_repeats(s: Seq<Seq<char>>) -> bool {
    forall|i: int| 0 <= i && i + 1 < s.len() ==> !path_same(#[trigger] s[i + 1], s[i])
}

proof fn lemma_insert_position(s: Seq<Seq<char>>, x: Seq<char>) -> (k: int)
    ensures
        0 <= k <= s.len(),
        insert_path(s, x) == s.take(k).push(x) + s.skip(k),
        k < s.len() ==> path_precedes(x, s[k]),
        k > 0 ==> !path_precedes(x, s[k - 1]),
    decreases s.len(),
{
    if s.len() > 0 && path_precedes(x, s.last()) {
        let p = s.drop_last();
        let k = lemma_insert_position(p, x);
        assert(p.take(k) =~= s.take(k));
        assert(p.skip(k).push(s.last()) =~= s.skip(k));
        assert(insert_path(s, x) =~= s.take(k).push(x) + s.skip(k));
        if k < p.len() {
            assert(s[k] == p[k]);
        }
        if k > 0 {
            assert(s[k - 1] == p[k - 1]);
        }
        k
    } else {
        assert(s.take(s.len() as int) =~= s);
        assert(s.skip(s.len() as int) =~= Seq::<Seq<char>>::empty());
        assert(insert_path(s, x) =~= s.take(s.len() as int).push(x) + s.skip(s.len() as int));
        s.len() as int
    }
}

/// Sorting leaves every two neighbours in `Path` order.
pub proof fn lemma_sorted_paths_in_order(s: Seq<Seq<char>>)
    ensures
        paths_in_order(sorted_paths(s)),
        sorted_paths(s).len() == s.len(),
    decreases s.len(),
{
    if s.len() > 0 {
        lemma_sorted_paths_in_order(s.drop_last());
        let p = sorted_paths(s.drop_last());
        let x = s.last();
        let k = lemma_insert_position(p, x);
        let r = sorted_paths(s);
        assert(r == p.take(k).push(x) + p.skip(k));
        assert forall|i: int| 0 <= i && i + 1 < r.len() implies #[trigger] neighbours_in_order(r, i) by {
            if i + 1 < k {
                assert(r[i] == p[i] && r[i + 1] == p[i + 1]);
                assert(neighbours_in_order(p, i));
            } else if i + 1 == k {
                assert(r[i] == p[k - 1] && r[i + 1] == x);
            } else if i == k {
                assert(r[i] == x && r[i + 1] == p[k]);
            } else {
                assert(r[i] == p[i - 1] && r[i + 1] == p[i]);
                assert(neighbours_in_order(p, i - 1));
            }
        }
    }
}

/// Dropping repeats leaves no path equal to the one just before it.
pub proof fn lemma_deduped_paths_no_repeats(s: Seq<Seq<char>>)
    ensures
        no_neighbour_repeats(deduped_paths(s)),
    decreases s.len(),
{
    if s.len() > 0 {
        lemma_deduped_paths_no_repeats(s.drop_last());
        let p = deduped_paths(s.drop_last());
        let r = deduped_paths(s);
        if !(p.len() > 0 && path_same(s.last(), p.last())) {
            assert forall|i: int| 0 <= i && i + 1 < r.len() implies !path_same(#[trigger] r[i + 1], r[i]) by {
                if i + 1 < p.len() {
                    assert(r[i + 1] == p[i + 1] && r[i] == p[i]);
                }
            }
        }
    }
}

} // verus!
