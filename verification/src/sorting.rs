//! A stable insertion sort, specified once over ghost sequences and shared
//! by every list the compiler orders before emission: if-blocks, binding
//! relations, text-node renderers and script rewrite positions. The global
//! sorts are what make the emitted code deterministic.

use vstd::prelude::*;

verus! {

/// `x` inserted into `s` after every element that compares `le` to it, so
/// that equal keys keep their arrival order.
pub open spec fn spec_insert_sorted<T>(x: T, s: Seq<T>, le: spec_fn(T, T) -> bool) -> Seq<T>
    decreases s.len(),
{
    if s.len() == 0 {
        seq![x]
    } else if le(s.last(), x) {
        s.push(x)
    } else {
        spec_insert_sorted(x, s.drop_last(), le).push(s.last())
    }
}

/// The sequence sorted by repeated stable insertion, left to right.
pub open spec fn spec_insertion_sort<T>(s: Seq<T>, le: spec_fn(T, T) -> bool) -> Seq<T>
    decreases s.len(),
{
    if s.len() == 0 {
        Seq::empty()
    } else {
        spec_insert_sorted(s.last(), spec_insertion_sort(s.drop_last(), le), le)
    }
}

/// Adjacent elements are ordered.
pub open spec fn spec_sorted_by<T>(s: Seq<T>, le: spec_fn(T, T) -> bool) -> bool {
    forall|i: int| 0 <= i < s.len() - 1 ==> #[trigger] le(s[i], s[i + 1])
}

/// Where the insertion lands: if every element from `j` on compares
/// strictly after `x` and the one before `j` (if any) compares `le` to it,
/// the insertion splits the sequence at `j`.
pub proof fn lemma_insert_sorted_at<T>(x: T, s: Seq<T>, le: spec_fn(T, T) -> bool, j: int)
    requires
        0 <= j <= s.len(),
        forall|k: int| j <= k < s.len() ==> !le(#[trigger] s[k], x),
        j > 0 ==> le(s[j - 1], x),
    ensures
        spec_insert_sorted(x, s, le) == s.subrange(0, j) + seq![x] + s.subrange(j, s.len() as int),
    decreases s.len(),
{
    let n = s.len() as int;
    if n == 0 {
        assert(spec_insert_sorted(x, s, le) =~= s.subrange(0, 0) + seq![x] + s.subrange(0, 0));
    } else if le(s.last(), x) {
        assert(j == n);
        assert(s.subrange(0, n) =~= s);
        assert(spec_insert_sorted(x, s, le) =~= s.subrange(0, n) + seq![x] + s.subrange(n, n));
    } else {
        assert(j < n);
        assert forall|k: int| j <= k < s.drop_last().len() implies !le(
            #[trigger] s.drop_last()[k],
            x,
        ) by {
            assert(s.drop_last()[k] == s[k]);
        }
        if j > 0 {
            assert(s.drop_last()[j - 1] == s[j - 1]);
        }
        lemma_insert_sorted_at(x, s.drop_last(), le, j);
        assert(spec_insert_sorted(x, s, le) =~= s.subrange(0, j) + seq![x] + s.subrange(j, n));
    }
}

/// Stable insertion keeps a sequence sorted when the order is total.
pub proof fn lemma_insert_sorted_stays_sorted<T>(x: T, s: Seq<T>, le: spec_fn(T, T) -> bool)
    requires
        spec_sorted_by(s, le),
        forall|a: T, b: T| #[trigger] le(a, b) || #[trigger] le(b, a),
    ensures
        spec_sorted_by(spec_insert_sorted(x, s, le), le),
    decreases s.len(),
{
    let n = s.len() as int;
    let r = spec_insert_sorted(x, s, le);
    if n == 0 {
    } else if le(s.last(), x) {
        assert forall|i: int| 0 <= i < r.len() - 1 implies #[trigger] le(r[i], r[i + 1]) by {
            if i < n - 1 {
                assert(le(s[i], s[i + 1]));
            } else {
                assert(r[i] == s.last());
            }
        }
    } else {
        assert(spec_sorted_by(s.drop_last(), le)) by {
            assert forall|i: int| 0 <= i < s.drop_last().len() - 1 implies #[trigger] le(
                s.drop_last()[i],
                s.drop_last()[i + 1],
            ) by {
                assert(s.drop_last()[i] == s[i]);
                assert(s.drop_last()[i + 1] == s[i + 1]);
                assert(le(s[i], s[i + 1]));
            }
        }
        lemma_insert_sorted_stays_sorted(x, s.drop_last(), le);
        let q = spec_insert_sorted(x, s.drop_last(), le);
        assert(r == q.push(s.last()));
        lemma_insert_sorted_last(x, s.drop_last(), le);
        assert forall|i: int| 0 <= i < r.len() - 1 implies #[trigger] le(r[i], r[i + 1]) by {
            if i < q.len() - 1 {
                assert(le(q[i], q[i + 1]));
                assert(r[i] == q[i]);
                assert(r[i + 1] == q[i + 1]);
            } else {
                assert(r[i] == q.last());
                assert(r[i + 1] == s.last());
                if n >= 2 {
                    let i2: int = n - 2;
                    assert(le(s[i2], s[i2 + 1]));
                    assert(s[i2 + 1] == s.last());
                }
                assert(q.last() == x || (s.drop_last().len() > 0 && q.last()
                    == s.drop_last().last()));
                if q.last() == x {
                    assert(le(x, s.last()));
                }
            }
        }
    }
}

/// The last element after insertion is either the inserted value or the old
/// last element.
proof fn lemma_insert_sorted_last<T>(x: T, s: Seq<T>, le: spec_fn(T, T) -> bool)
    ensures
        spec_insert_sorted(x, s, le).last() == x || (s.len() > 0 && spec_insert_sorted(
            x,
            s,
            le,
        ).last() == s.last()),
        spec_insert_sorted(x, s, le).len() == s.len() + 1,
    decreases s.len(),
{
    if s.len() > 0 && !le(s.last(), x) {
        lemma_insert_sorted_last(x, s.drop_last(), le);
    }
}

/// Sorting keeps the length.
pub proof fn lemma_insertion_sort_len<T>(s: Seq<T>, le: spec_fn(T, T) -> bool)
    ensures
        spec_insertion_sort(s, le).len() == s.len(),
    decreases s.len(),
{
    if s.len() > 0 {
        lemma_insertion_sort_len(s.drop_last(), le);
        lemma_insert_sorted_last(s.last(), spec_insertion_sort(s.drop_last(), le), le);
    }
}

/// Law: a full insertion sort is sorted whenever the order is total.
pub proof fn lemma_insertion_sort_sorted<T>(s: Seq<T>, le: spec_fn(T, T) -> bool)
    requires
        forall|a: T, b: T| #[trigger] le(a, b) || #[trigger] le(b, a),
    ensures
        spec_sorted_by(spec_insertion_sort(s, le), le),
        spec_insertion_sort(s, le).len() == s.len(),
    decreases s.len(),
{
    if s.len() > 0 {
        lemma_insertion_sort_sorted(s.drop_last(), le);
        lemma_insert_sorted_stays_sorted(s.last(), spec_insertion_sort(s.drop_last(), le), le);
        lemma_insert_sorted_last(s.last(), spec_insertion_sort(s.drop_last(), le), le);
    }
}

/// Insertion keeps any property that held of the inserted value and of
/// every element.
pub proof fn lemma_insert_sorted_all<T>(x: T, s: Seq<T>, le: spec_fn(T, T) -> bool, p: spec_fn(
    T,
) -> bool)
    requires
        p(x),
        forall|k: int| 0 <= k < s.len() ==> p(#[trigger] s[k]),
    ensures
        forall|k: int|
            0 <= k < spec_insert_sorted(x, s, le).len() ==> p(
                #[trigger] spec_insert_sorted(x, s, le)[k],
            ),
    decreases s.len(),
{
    let r = spec_insert_sorted(x, s, le);
    if s.len() == 0 {
    } else if le(s.last(), x) {
    } else {
        assert forall|k: int| 0 <= k < s.drop_last().len() implies p(
            #[trigger] s.drop_last()[k],
        ) by {
            assert(s.drop_last()[k] == s[k]);
        }
        lemma_insert_sorted_all(x, s.drop_last(), le, p);
        let q = spec_insert_sorted(x, s.drop_last(), le);
        assert forall|k: int| 0 <= k < r.len() implies p(#[trigger] r[k]) by {
            if k < q.len() {
                assert(r[k] == q[k]);
            } else {
                assert(r[k] == s.last());
            }
        }
    }
}

/// Sorting keeps any property that held of every element.
pub proof fn lemma_insertion_sort_all<T>(s: Seq<T>, le: spec_fn(T, T) -> bool, p: spec_fn(
    T,
) -> bool)
    requires
        forall|k: int| 0 <= k < s.len() ==> p(#[trigger] s[k]),
    ensures
        forall|k: int|
            0 <= k < spec_insertion_sort(s, le).len() ==> p(#[trigger] spec_insertion_sort(s, le)[k]),
    decreases s.len(),
{
    if s.len() > 0 {
        assert forall|k: int| 0 <= k < s.drop_last().len() implies p(
            #[trigger] s.drop_last()[k],
        ) by {
            assert(s.drop_last()[k] == s[k]);
        }
        lemma_insertion_sort_all(s.drop_last(), le, p);
        lemma_insert_sorted_all(s.last(), spec_insertion_sort(s.drop_last(), le), le, p);
    }
}

/// Lexicographic order on positions in the markup tree: a prefix comes
/// before its extensions.
pub open spec fn spec_loc_le(a: Seq<usize>, b: Seq<usize>) -> bool
    decreases a.len(),
{
    if a.len() == 0 {
        true
    } else if b.len() == 0 {
        false
    } else if a[0] < b[0] {
        true
    } else if a[0] > b[0] {
        false
    } else {
        spec_loc_le(a.drop_first(), b.drop_first())
    }
}

/// The lexicographic order on tree positions is total.
pub proof fn lemma_loc_le_total(a: Seq<usize>, b: Seq<usize>)
    ensures
        spec_loc_le(a, b) || spec_loc_le(b, a),
    decreases a.len(),
{
    if a.len() > 0 && b.len() > 0 && a[0] == b[0] {
        lemma_loc_le_total(a.drop_first(), b.drop_first());
    }
}

/// Compares two positions in the markup tree lexicographically.
pub fn loc_le(a: &Vec<usize>, b: &Vec<usize>) -> (r: bool)
    ensures
        r == spec_loc_le(a@, b@),
{
    let mut i: usize = 0;
    proof {
        assert(a@.skip(0) =~= a@);
        assert(b@.skip(0) =~= b@);
    }
    while i < a.len() && i < b.len()
        invariant
            0 <= i <= a@.len(),
            i <= b@.len(),
            spec_loc_le(a@, b@) == spec_loc_le(a@.skip(i as int), b@.skip(i as int)),
            forall|k: int| 0 <= k < i ==> a@[k] == b@[k],
        decreases a@.len() - i,
    {
        let x = a[i];
        let y = b[i];
        proof {
            assert(a@.skip(i as int)[0] == a@[i as int]);
            assert(b@.skip(i as int)[0] == b@[i as int]);
            assert(a@.skip(i as int).drop_first() =~= a@.skip(i as int + 1));
            assert(b@.skip(i as int).drop_first() =~= b@.skip(i as int + 1));
        }
        if x < y {
            return true;
        }
        if x > y {
            return false;
        }
        i = i + 1;
    }
    proof {
        if i < b@.len() {
            assert(b@.skip(i as int).len() > 0);
        }
    }
    i >= a.len()
}

} // verus!
