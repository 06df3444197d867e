//! A stable sort from the largest key down, for ranking candidates.

use vstd::prelude::*;

verus! {

/// A sort key of four numbers, compared in order (the first decides unless equal).
#[derive(Clone, Copy, Debug, PartialEq, Eq, Structural)]
pub struct SortKey(pub i64, pub i64, pub i64, pub i64);

/// Whether key `a` is strictly smaller than key `b`.
pub open spec fn key_lt(a: SortKey, b: SortKey) -> bool {
    ||| a.0 < b.0
    ||| a.0 == b.0 && a.1 < b.1
    ||| a.0 == b.0 && a.1 == b.1 && a.2 < b.2
    ||| a.0 == b.0 && a.1 == b.1 && a.2 == b.2 && a.3 < b.3
}

fn key_less(a: &SortKey, b: &SortKey) -> (r: bool)
    ensures
        r == key_lt(*a, *b),
{
    a.0 < b.0 || (a.0 == b.0 && a.1 < b.1) || (a.0 == b.0 && a.1 == b.1 && a.2 < b.2) || (a.0
        == b.0 && a.1 == b.1 && a.2 == b.2 && a.3 < b.3)
}

/// `s` (sorted from the largest key down) with `x` placed after every element
/// whose key is not smaller than its own.
pub open spec fn insert_desc<T>(s: Seq<(SortKey, T)>, x: (SortKey, T)) -> Seq<(SortKey, T)>
    decreases s.len(),
{
    if s.len() > 0 && key_lt(s.last().0, x.0) {
        insert_desc(s.drop_last(), x).push(s.last())
    } else {
        s.push(x)
    }
}

/// `s` sorted from the largest key down, elements with equal keys kept in
/// their order (what `sort_by` with a reversed key comparison gives).
pub open spec fn sorted_desc<T>(s: Seq<(SortKey, T)>) -> Seq<(SortKey, T)>
    decreases s.len(),
{
    if s.len() == 0 {
        Seq::empty()
    } else {
        insert_desc(sorted_desc(s.drop_last()), s.last())
    }
}

/// Sorts from the largest key down, keeping equal keys in order.
pub fn sort_desc<T>(v: Vec<(SortKey, T)>) -> (r: Vec<(SortKey, T)>)
    ensures
        r@ == sorted_desc(v@),
{
    let ghost all = v@;
    let mut out: Vec<(SortKey, T)> = Vec::new();
    for x in it: v
        invariant
            it.seq() == all,
            out@ == sorted_desc(all.take(it.index() as int)),
    {
        let ghost i = it.index() as int;
        assert(all.take(i + 1).drop_last() =~= all.take(i));
        assert(all.take(i + 1).last() == x);
        let mut j = out.len();
        assert(out@.take(j as int) =~= out@);
        assert(out@.skip(j as int) =~= Seq::<(SortKey, T)>::empty());
        assert(insert_desc(out@, x) + Seq::<(SortKey, T)>::empty() =~= insert_desc(out@, x));
        while j > 0 && key_less(&out[j - 1].0, &x.0)
            invariant
                j <= out.len(),
                insert_desc(out@, x) == insert_desc(out@.take(j as int), x) + out@.skip(j as int),
            decreases j,
        {
            let ghost t = out@.take(j as int);
            assert(t.drop_last() =~= out@.take(j - 1));
            assert(t.last() == out@[j - 1]);
            assert(out@.skip(j - 1) =~= seq![out@[j - 1]] + out@.skip(j as int));
            assert(insert_desc(out@.take(j - 1), x).push(out@[j - 1]) + out@.skip(j as int)
                =~= insert_desc(out@.take(j - 1), x) + out@.skip(j - 1));
            j = j - 1;
        }
        let ghost before = out@;
        out.insert(j, x);
        assert(out@ =~= before.take(j as int).push(x) + before.skip(j as int));
    }
    assert(all.take(all.len() as int) =~= all);
    out
}

/// The pairs with their second parts mapped by `f`.
pub open spec fn map_second<A, B>(s: Seq<(SortKey, A)>, f: spec_fn(A) -> B) -> Seq<(SortKey, B)> {
    s.map_values(|p: (SortKey, A)| (p.0, f(p.1)))
}

proof fn lemma_insert_desc_map<A, B>(s: Seq<(SortKey, A)>, x: (SortKey, A), f: spec_fn(A) -> B)
    ensures
        insert_desc(map_second(s, f), (x.0, f(x.1))) == map_second(insert_desc(s, x), f),
    decreases s.len(),
{
    if s.len() > 0 && key_lt(s.last().0, x.0) {
        assert(map_second(s, f).drop_last() =~= map_second(s.drop_last(), f));
        lemma_insert_desc_map(s.drop_last(), x, f);
        assert(map_second(insert_desc(s.drop_last(), x).push(s.last()), f) =~= map_second(
            insert_desc(s.drop_last(), x),
            f,
        ).push((s.last().0, f(s.last().1))));
    } else {
        assert(map_second(s.push(x), f) =~= map_second(s, f).push((x.0, f(x.1))));
    }
}

/// Sorting does not look at what the keys are attached to: mapping the
/// attached values before or after sorting gives the same.
pub proof fn lemma_sorted_desc_map<A, B>(s: Seq<(SortKey, A)>, f: spec_fn(A) -> B)
    ensures
        sorted_desc(map_second(s, f)) == map_second(sorted_desc(s), f),
    decreases s.len(),
{
    if s.len() > 0 {
        assert(map_second(s, f).drop_last() =~= map_second(s.drop_last(), f));
        lemma_sorted_desc_map(s.drop_last(), f);
        lemma_insert_desc_map(sorted_desc(s.drop_last()), s.last(), f);
    }
}


/// Whether no key in `s` is smaller than a key after it.
pub open spec fn desc_ordered<T>(s: Seq<(SortKey, T)>) -> bool {
    forall|i: int, j: int| 0 <= i < j < s.len() ==> !key_lt(#[trigger] s[i].0, #[trigger] s[j].0)
}

proof fn lemma_insert_desc_bound<T>(s: Seq<(SortKey, T)>, x: (SortKey, T), b: SortKey)
    requires
        forall|i: int| 0 <= i < s.len() ==> !key_lt(#[trigger] s[i].0, b),
        !key_lt(x.0, b),
    ensures
        insert_desc(s, x).len() == s.len() + 1,
        forall|i: int| 0 <= i < insert_desc(s, x).len() ==> !key_lt(#[trigger] insert_desc(s, x)[i].0, b),
    decreases s.len(),
{
    if s.len() > 0 && key_lt(s.last().0, x.0) {
        lemma_insert_desc_bound(s.drop_last(), x, b);
    }
}

proof fn lemma_insert_desc_ordered<T>(s: Seq<(SortKey, T)>, x: (SortKey, T))
    requires
        desc_ordered(s),
    ensures
        desc_ordered(insert_desc(s, x)),
        insert_desc(s, x).to_multiset() == s.to_multiset().insert(x),
    decreases s.len(),
{
    broadcast use vstd::seq_lib::group_to_multiset_ensures;

    if s.len() > 0 && key_lt(s.last().0, x.0) {
        let p = s.drop_last();
        assert(desc_ordered(p));
        lemma_insert_desc_ordered(p, x);
        assert forall|i: int| 0 <= i < p.len() implies !key_lt(#[trigger] p[i].0, s.last().0) by {
            assert(s[i] == p[i]);
        }
        lemma_insert_desc_bound(p, x, s.last().0);
        assert(s =~= p.push(s.last()));
    } else {
        assert forall|i: int| 0 <= i < s.len() implies !key_lt(#[trigger] s[i].0, x.0) by {
            if i < s.len() - 1 {
                assert(!key_lt(s[i].0, s[s.len() - 1].0));
            }
        }
    }
}

/// Sorting from the largest key down leaves every key no smaller than the
/// keys after it, and keeps exactly the elements it was given.
pub proof fn lemma_sorted_desc_ordered<T>(s: Seq<(SortKey, T)>)
    ensures
        desc_ordered(sorted_desc(s)),
        sorted_desc(s).to_multiset() == s.to_multiset(),
    decreases s.len(),
{
    broadcast use vstd::seq_lib::group_to_multiset_ensures;

    if s.len() > 0 {
        lemma_sorted_desc_ordered(s.drop_last());
        lemma_insert_desc_ordered(sorted_desc(s.drop_last()), s.last());
        assert(s =~= s.drop_last().push(s.last()));
    }
}

/// A count as two key parts, its high and low 32-bit halves, which compare as
/// the count does.
pub fn count_parts(n: usize) -> (r: (i64, i64))
    ensures
        r.0 == n as int / 4294967296,
        r.1 == n as int % 4294967296,
{
    let m = n as u64;
    ((m / 4294967296) as i64, (m % 4294967296) as i64)
}

/// Two counts compare as their halves do.
pub proof fn lemma_count_parts_order(a: nat, b: nat)
    ensures
        (a < b) <==> (a / 4294967296 < b / 4294967296 || (a / 4294967296 == b / 4294967296 && a
            % 4294967296 < b % 4294967296)),
        (a == b) <==> (a / 4294967296 == b / 4294967296 && a % 4294967296 == b % 4294967296),
{
    let c: int = 4294967296;
    let qa = a as int / c;
    let ra = a as int % c;
    let qb = b as int / c;
    let rb = b as int % c;
    vstd::arithmetic::div_mod::lemma_fundamental_div_mod(a as int, c);
    vstd::arithmetic::div_mod::lemma_fundamental_div_mod(b as int, c);
    assert(qa < qb ==> c * qa + ra < c * qb + rb) by (nonlinear_arith)
        requires
            0 <= ra < c,
            0 <= rb < c,
    ;
    assert(qb < qa ==> c * qb + rb < c * qa + ra) by (nonlinear_arith)
        requires
            0 <= ra < c,
            0 <= rb < c,
    ;
}

/// The elements paired with their keys.
pub open spec fn keyed_by<T>(s: Seq<T>, key: spec_fn(T) -> SortKey) -> Seq<(SortKey, T)> {
    s.map_values(|x: T| (key(x), x))
}

/// Sorting elements paired with their keys keeps each pair's key that of its
/// element, keeps only given elements, and orders the keys from the largest down.
pub proof fn lemma_keyed_pairs<T>(s: Seq<T>, key: spec_fn(T) -> SortKey)
    ensures
        desc_ordered(sorted_desc(keyed_by(s, key))),
        sorted_desc(keyed_by(s, key)).len() == s.len(),
        forall|k: int|
            0 <= k < sorted_desc(keyed_by(s, key)).len() ==> (#[trigger] sorted_desc(keyed_by(s, key))[k]).0
                == key(sorted_desc(keyed_by(s, key))[k].1) && s.contains(sorted_desc(keyed_by(s, key))[k].1),
        forall|k: int| 0 <= k < s.len() ==> sorted_desc(keyed_by(s, key)).contains((key(#[trigger] s[k]), s[k])),
{
    broadcast use vstd::seq_lib::group_to_multiset_ensures;

    let keyed = keyed_by(s, key);
    let sorted = sorted_desc(keyed);
    lemma_sorted_desc_ordered(keyed);
    assert(sorted.len() == sorted.to_multiset().len());
    assert(keyed.len() == keyed.to_multiset().len());
    assert forall|k: int| 0 <= k < sorted.len() implies (#[trigger] sorted[k]).0 == key(sorted[k].1)
        && s.contains(sorted[k].1) by {
        let e = sorted[k];
        assert(sorted.contains(e));
        assert(sorted.to_multiset().count(e) > 0);
        assert(keyed.to_multiset().count(e) > 0);
        assert(keyed.contains(e));
        let m = choose|m: int| 0 <= m < keyed.len() && keyed[m] == e;
        assert(s[m] == e.1);
    }
    assert forall|k: int| 0 <= k < s.len() implies sorted.contains((key(#[trigger] s[k]), s[k])) by {
        let e = (key(s[k]), s[k]);
        assert(keyed[k] == e);
        assert(keyed.contains(e));
        assert(keyed.to_multiset().count(e) > 0);
        assert(sorted.to_multiset().count(e) > 0);
    }
}

} // verus!
