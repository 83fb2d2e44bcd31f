//! Stable sorting and consecutive de-duplication, as specifications, with the lemmas
//! that the executable sorts in this crate are proved with.

use vstd::prelude::*;

verus! {

/// Inserts `x` into `s` before the first element that is greater than `x`
/// (after every element that is not).
pub open spec fn ins<T>(s: Seq<T>, x: T, gt: spec_fn(T, T) -> bool) -> Seq<T>
    decreases s.len(),
{
    if s.len() == 0 {
        seq![x]
    } else if gt(s[0], x) {
        seq![x] + s
    } else {
        seq![s[0]] + ins(s.drop_first(), x, gt)
    }
}

/// Insertion sort by `gt`; for a total preorder this is the result of a stable sort
/// (`slice::sort_by_key`, `slice::sort`).
pub open spec fn isort<T>(s: Seq<T>, gt: spec_fn(T, T) -> bool) -> Seq<T>
    decreases s.len(),
{
    if s.len() == 0 {
        s
    } else {
        ins(isort(s.drop_last(), gt), s.last(), gt)
    }
}

/// `Vec::dedup_by(same)`: drops each element that is `same` as the last element kept.
pub open spec fn dedup<T>(s: Seq<T>, same: spec_fn(T, T) -> bool) -> Seq<T>
    decreases s.len(),
{
    if s.len() == 0 {
        s
    } else {
        let d = dedup(s.drop_last(), same);
        if d.len() > 0 && same(s.last(), d.last()) {
            d
        } else {
            d.push(s.last())
        }
    }
}

/// Keeps the elements satisfying `p`, in order.
pub open spec fn keep<T>(s: Seq<T>, p: spec_fn(T) -> bool) -> Seq<T>
    decreases s.len(),
{
    if s.len() == 0 {
        s
    } else if p(s.last()) {
        keep(s.drop_last(), p).push(s.last())
    } else {
        keep(s.drop_last(), p)
    }
}

/// Where [`ins`] puts `x`: at the first position holding a greater element.
pub proof fn lemma_ins_at<T>(s: Seq<T>, x: T, gt: spec_fn(T, T) -> bool, j: int)
    requires
        0 <= j <= s.len(),
        forall|i: int| 0 <= i < j ==> !gt(#[trigger] s[i], x),
        j == s.len() || gt(s[j], x),
    ensures
        ins(s, x, gt) == s.take(j) + seq![x] + s.skip(j),
    decreases s.len(),
{
    if s.len() == 0 {
        assert(s.take(j) + seq![x] + s.skip(j) =~= seq![x]);
    } else if j == 0 {
        assert(s.take(j) + seq![x] + s.skip(j) =~= seq![x] + s);
    } else {
        let t = s.drop_first();
        assert forall|i: int| 0 <= i < j - 1 implies !gt(#[trigger] t[i], x) by {
            assert(t[i] == s[i + 1]);
        }
        if j < s.len() {
            assert(t[j - 1] == s[j]);
        }
        lemma_ins_at(t, x, gt, j - 1);
        assert(s.take(j) + seq![x] + s.skip(j) =~= seq![s[0]] + (t.take(j - 1) + seq![x] + t.skip(
            j - 1,
        )));
    }
}

/// Elements kept by [`keep`] all satisfy the predicate and come from `s`.
pub proof fn lemma_keep_sub<T>(s: Seq<T>, p: spec_fn(T) -> bool)
    ensures
        keep(s, p).len() <= s.len(),
        forall|i: int| 0 <= i < keep(s, p).len() ==> p(#[trigger] keep(s, p)[i]),
        forall|i: int| 0 <= i < keep(s, p).len() ==> s.contains(#[trigger] keep(s, p)[i]),
    decreases s.len(),
{
    if s.len() > 0 {
        lemma_keep_sub(s.drop_last(), p);
        let k = keep(s.drop_last(), p);
        assert forall|i: int| 0 <= i < keep(s, p).len() implies s.contains(
            #[trigger] keep(s, p)[i],
        ) by {
            if i < k.len() {
                let w = choose|w: int| 0 <= w < s.drop_last().len() && s.drop_last()[w] == k[i];
                assert(s[w] == k[i]);
            } else {
                assert(s[s.len() - 1] == keep(s, p)[i]);
            }
        }
    }
}

/// Keeping every element changes nothing.
pub proof fn lemma_keep_all<T>(s: Seq<T>, p: spec_fn(T) -> bool)
    requires
        forall|i: int| 0 <= i < s.len() ==> p(#[trigger] s[i]),
    ensures
        keep(s, p) == s,
    decreases s.len(),
{
    if s.len() > 0 {
        lemma_keep_all(s.drop_last(), p);
        assert(s.drop_last().push(s.last()) =~= s);
    }
}

/// Keeping twice by the same predicate is keeping once.
pub proof fn lemma_keep_idempotent<T>(s: Seq<T>, p: spec_fn(T) -> bool)
    ensures
        keep(keep(s, p), p) == keep(s, p),
{
    lemma_keep_sub(s, p);
    lemma_keep_all(keep(s, p), p);
}

/// An element satisfying the predicate is kept.
pub proof fn lemma_keep_contains<T>(s: Seq<T>, p: spec_fn(T) -> bool, x: T)
    requires
        s.contains(x),
        p(x),
    ensures
        keep(s, p).contains(x),
    decreases s.len(),
{
    if s.last() == x {
        assert(keep(s, p).last() == x);
    } else {
        let j = choose|j: int| 0 <= j < s.len() && s[j] == x;
        assert(s.drop_last()[j] == x);
        lemma_keep_contains(s.drop_last(), p, x);
        let k = keep(s.drop_last(), p);
        let i = choose|i: int| 0 <= i < k.len() && k[i] == x;
        if p(s.last()) {
            assert(keep(s, p)[i] == x);
        }
    }
}

/// Inserting adds exactly the inserted element.
pub proof fn lemma_ins_contains<T>(s: Seq<T>, x: T, gt: spec_fn(T, T) -> bool, y: T)
    ensures
        ins(s, x, gt).contains(y) <==> (y == x || s.contains(y)),
    decreases s.len(),
{
    let r = ins(s, x, gt);
    if s.len() == 0 {
        if r.contains(y) {
            assert(r[0] == y);
        }
        assert(r[0] == x);
    } else if gt(s[0], x) {
        assert(r == seq![x] + s);
        if r.contains(y) {
            let i = choose|i: int| 0 <= i < r.len() && r[i] == y;
            if i > 0 {
                assert(s[i - 1] == y);
            }
        }
        if s.contains(y) {
            let i = choose|i: int| 0 <= i < s.len() && s[i] == y;
            assert(r[i + 1] == y);
        }
        assert(r[0] == x);
    } else {
        let t = ins(s.drop_first(), x, gt);
        lemma_ins_contains(s.drop_first(), x, gt, y);
        assert(r == seq![s[0]] + t);
        if r.contains(y) {
            let i = choose|i: int| 0 <= i < r.len() && r[i] == y;
            if i == 0 {
                assert(s[0] == y);
            } else {
                assert(t[i - 1] == y);
                if s.drop_first().contains(y) {
                    let j = choose|j: int| 0 <= j < s.drop_first().len() && s.drop_first()[j] == y;
                    assert(s[j + 1] == y);
                }
            }
        }
        if s.contains(y) {
            let i = choose|i: int| 0 <= i < s.len() && s[i] == y;
            if i == 0 {
                assert(r[0] == y);
            } else {
                assert(s.drop_first()[i - 1] == y);
                let j = choose|j: int| 0 <= j < t.len() && t[j] == y;
                assert(r[j + 1] == y);
            }
        }
        if y == x {
            let j = choose|j: int| 0 <= j < t.len() && t[j] == y;
            assert(r[j + 1] == y);
        }
    }
}

/// Sorting keeps exactly the elements it was given.
pub proof fn lemma_isort_contains<T>(s: Seq<T>, gt: spec_fn(T, T) -> bool, y: T)
    ensures
        isort(s, gt).contains(y) <==> s.contains(y),
    decreases s.len(),
{
    if s.len() > 0 {
        lemma_isort_contains(s.drop_last(), gt, y);
        lemma_ins_contains(isort(s.drop_last(), gt), s.last(), gt, y);
        if s.drop_last().contains(y) {
            let j = choose|j: int| 0 <= j < s.drop_last().len() && s.drop_last()[j] == y;
            assert(s[j] == y);
        }
        if s.contains(y) && y != s.last() {
            let j = choose|j: int| 0 <= j < s.len() && s[j] == y;
            assert(s.drop_last()[j] == y);
        }
        assert(s[s.len() - 1] == s.last());
    }
}

/// No element comes after a "greater" one.
pub open spec fn sorted_by<T>(s: Seq<T>, gt: spec_fn(T, T) -> bool) -> bool {
    forall|i: int, j: int| 0 <= i < j < s.len() ==> !gt(#[trigger] s[i], #[trigger] s[j])
}

/// `gt` is a strict weak order: asymmetric, and "not greater" is transitive.
pub open spec fn strict_weak<T>(gt: spec_fn(T, T) -> bool) -> bool {
    &&& forall|a: T, b: T| #[trigger] gt(a, b) ==> !gt(b, a)
    &&& forall|a: T, b: T, c: T|
        #![trigger gt(a, b), gt(b, c)]
        !gt(a, b) && !gt(b, c) ==> !gt(a, c)
}

/// Inserting into a sorted sequence keeps it sorted.
pub proof fn lemma_ins_sorted<T>(s: Seq<T>, x: T, gt: spec_fn(T, T) -> bool)
    requires
        strict_weak(gt),
        sorted_by(s, gt),
    ensures
        sorted_by(ins(s, x, gt), gt),
    decreases s.len(),
{
    let r = ins(s, x, gt);
    if s.len() == 0 {
    } else if gt(s[0], x) {
        assert(r == seq![x] + s);
        assert forall|i: int, j: int| 0 <= i < j < r.len() implies !gt(#[trigger] r[i], #[trigger] r[j]) by {
            if i == 0 {
                assert(r[j] == s[j - 1]);
                if j - 1 > 0 {
                    assert(!gt(s[0], s[j - 1]));
                }
                if gt(x, s[j - 1]) {
                    assert(!gt(x, s[0]));
                    assert(!gt(s[0], s[j - 1]) ==> !gt(x, s[j - 1]));
                }
            } else {
                assert(r[i] == s[i - 1] && r[j] == s[j - 1]);
            }
        }
    } else {
        let t = ins(s.drop_first(), x, gt);
        assert(sorted_by(s.drop_first(), gt)) by {
            assert forall|i: int, j: int| 0 <= i < j < s.drop_first().len() implies !gt(
                #[trigger] s.drop_first()[i],
                #[trigger] s.drop_first()[j],
            ) by {
                assert(s.drop_first()[i] == s[i + 1] && s.drop_first()[j] == s[j + 1]);
            }
        }
        lemma_ins_sorted(s.drop_first(), x, gt);
        assert(r == seq![s[0]] + t);
        assert forall|k: int| 0 <= k < t.len() implies !gt(s[0], #[trigger] t[k]) by {
            lemma_ins_contains(s.drop_first(), x, gt, t[k]);
            assert(t.contains(t[k]));
            if t[k] != x {
                let m = choose|m: int| 0 <= m < s.drop_first().len() && s.drop_first()[m] == t[k];
                assert(s[m + 1] == t[k]);
            }
        }
        assert forall|i: int, j: int| 0 <= i < j < r.len() implies !gt(#[trigger] r[i], #[trigger] r[j]) by {
            if i == 0 {
                assert(r[j] == t[j - 1]);
            } else {
                assert(r[i] == t[i - 1] && r[j] == t[j - 1]);
            }
        }
    }
}

/// Insertion sort by a strict weak order sorts.
pub proof fn lemma_isort_sorted<T>(s: Seq<T>, gt: spec_fn(T, T) -> bool)
    requires
        strict_weak(gt),
    ensures
        sorted_by(isort(s, gt), gt),
    decreases s.len(),
{
    if s.len() > 0 {
        lemma_isort_sorted(s.drop_last(), gt);
        lemma_ins_sorted(isort(s.drop_last(), gt), s.last(), gt);
    }
}

/// What [`dedup`] keeps comes from its input; neighbours it keeps are never `same`.
pub proof fn lemma_dedup_sub<T>(s: Seq<T>, same: spec_fn(T, T) -> bool)
    ensures
        forall|i: int| 0 <= i < dedup(s, same).len() ==> s.contains(#[trigger] dedup(s, same)[i]),
        forall|i: int| 0 <= i < dedup(s, same).len() - 1 ==> !same(
            #[trigger] dedup(s, same)[i + 1],
            dedup(s, same)[i],
        ),
    decreases s.len(),
{
    if s.len() > 0 {
        lemma_dedup_sub(s.drop_last(), same);
        let d = dedup(s.drop_last(), same);
        assert forall|i: int| 0 <= i < dedup(s, same).len() implies s.contains(#[trigger] dedup(s, same)[i]) by {
            if i < d.len() {
                let w = choose|w: int| 0 <= w < s.drop_last().len() && s.drop_last()[w] == d[i];
                assert(s[w] == d[i]);
            } else {
                assert(s[s.len() - 1] == dedup(s, same)[i]);
            }
        }
    }
}

/// Removing neighbours from a sorted sequence keeps it sorted.
pub proof fn lemma_dedup_sorted<T>(s: Seq<T>, gt: spec_fn(T, T) -> bool, same: spec_fn(T, T) -> bool)
    requires
        sorted_by(s, gt),
    ensures
        sorted_by(dedup(s, same), gt),
    decreases s.len(),
{
    if s.len() > 0 {
        let p = s.drop_last();
        assert(sorted_by(p, gt)) by {
            assert forall|i: int, j: int| 0 <= i < j < p.len() implies !gt(#[trigger] p[i], #[trigger] p[j]) by {
                assert(p[i] == s[i] && p[j] == s[j]);
            }
        }
        lemma_dedup_sorted(p, gt, same);
        lemma_dedup_sub(p, same);
        let d = dedup(p, same);
        let r = dedup(s, same);
        assert forall|i: int, j: int| 0 <= i < j < r.len() implies !gt(#[trigger] r[i], #[trigger] r[j]) by {
            if j < d.len() {
                assert(r[i] == d[i] && r[j] == d[j]);
            } else {
                assert(r[j] == s.last());
                assert(r[i] == d[i]);
                assert(p.contains(d[i]));
                let w = choose|w: int| 0 <= w < p.len() && p[w] == d[i];
                assert(s[w] == d[i]);
                assert(s[s.len() - 1] == s.last());
            }
        }
    }
}

proof fn lemma_strict_pair<T>(s: Seq<T>, gt: spec_fn(T, T) -> bool, i: int, j: int)
    requires
        strict_weak(gt),
        forall|k: int| 0 <= k < s.len() - 1 ==> #[trigger] gt(s[k + 1], s[k]),
        0 <= i < j < s.len(),
    ensures
        gt(s[j], s[i]),
    decreases j - i,
{
    assert(gt(s[(j - 1) + 1], s[j - 1]));
    if j > i + 1 {
        lemma_strict_pair(s, gt, i, j - 1);
        if !gt(s[j], s[i]) {
            assert(!gt(s[i], s[j - 1]));
            assert(!gt(s[j], s[j - 1]));
        }
    }
}

/// A sequence in which each element is greater than the one before it is strictly
/// increasing throughout.
pub proof fn lemma_sorted_strict<T>(s: Seq<T>, gt: spec_fn(T, T) -> bool)
    requires
        strict_weak(gt),
        forall|k: int| 0 <= k < s.len() - 1 ==> #[trigger] gt(s[k + 1], s[k]),
    ensures
        forall|i: int, j: int| 0 <= i < j < s.len() ==> gt(#[trigger] s[j], #[trigger] s[i]),
{
    assert forall|i: int, j: int| 0 <= i < j < s.len() implies gt(#[trigger] s[j], #[trigger] s[i]) by {
        lemma_strict_pair(s, gt, i, j);
    }
}

} // verus!
