//! Ranking: a stable sort of rows by volume, descending.
//!
//! The sort is specified exactly as iterated descending insertion, which
//! pins down the output completely; on top of that exact contract stand
//! proofs that the result is sorted, is a permutation of the input, and
//! keeps equal-volume rows in their original relative order. Volumes are
//! total integers, so no comparison can fail.
use vstd::prelude::*;
use vstd::multiset::Multiset;
use vstd::seq_lib::lemma_multiset_commutative;

use crate::extract::Row;
use crate::extract::RowView;

verus! {

/// Descending insertion: `x` goes after every row whose volume is at
/// least its own, before the first strictly smaller one.
pub open spec fn insert_desc(s: Seq<RowView>, x: RowView) -> Seq<RowView>
    decreases s.len(),
{
    if s.len() > 0 && s.last().volume < x.volume {
        insert_desc(s.drop_last(), x).push(s.last())
    } else {
        s.push(x)
    }
}

/// The ranked order of `s`: each row inserted in turn into the sorted
/// prefix.
pub open spec fn rank_spec(s: Seq<RowView>) -> Seq<RowView>
    decreases s.len(),
{
    if s.len() == 0 {
        Seq::<RowView>::empty()
    } else {
        insert_desc(rank_spec(s.drop_last()), s.last())
    }
}

pub open spec fn sorted_desc(s: Seq<RowView>) -> bool {
    forall|i: int, j: int| 0 <= i <= j < s.len() ==> s[i].volume >= s[j].volume
}

/// Rows of exactly volume `v`, the observation under which stability is
/// stated.
pub open spec fn has_volume(v: int) -> spec_fn(RowView) -> bool {
    |r: RowView| r.volume == v
}

/// Where `insert_desc` puts `x`: after the longest suffix of strictly
/// smaller volumes.
pub open spec fn insertion_point(s: Seq<RowView>, x: RowView) -> int
    decreases s.len(),
{
    if s.len() > 0 && s.last().volume < x.volume {
        insertion_point(s.drop_last(), x)
    } else {
        s.len() as int
    }
}

pub proof fn lemma_insert_desc_shape(s: Seq<RowView>, x: RowView)
    ensures
        0 <= insertion_point(s, x) <= s.len(),
        insert_desc(s, x) == s.take(insertion_point(s, x)) + seq![x] + s.skip(
            insertion_point(s, x),
        ),
        forall|k: int| insertion_point(s, x) <= k < s.len() ==> s[k].volume < x.volume,
        insertion_point(s, x) > 0 ==> s[insertion_point(s, x) - 1].volume >= x.volume,
    decreases s.len(),
{
    let p = insertion_point(s, x);
    if s.len() > 0 && s.last().volume < x.volume {
        lemma_insert_desc_shape(s.drop_last(), x);
        assert(s.drop_last().take(p) =~= s.take(p));
        assert(insert_desc(s, x) =~= s.take(p) + seq![x] + s.skip(p)) by {
            assert(insert_desc(s.drop_last(), x) == s.take(p) + seq![x] + s.drop_last().skip(p));
        }
        assert forall|k: int| p <= k < s.len() implies s[k].volume < x.volume by {
            if k < s.len() - 1 {
                assert(s.drop_last()[k] == s[k]);
            }
        }
        if p > 0 {
            assert(s.drop_last()[p - 1] == s[p - 1]);
        }
    } else {
        assert(insert_desc(s, x) =~= s.take(p) + seq![x] + s.skip(p));
    }
}

pub proof fn lemma_insert_desc_sorted(s: Seq<RowView>, x: RowView)
    requires
        sorted_desc(s),
    ensures
        sorted_desc(insert_desc(s, x)),
{
    lemma_insert_desc_shape(s, x);
    let p = insertion_point(s, x);
    let out = insert_desc(s, x);
    assert forall|i: int, j: int| 0 <= i <= j < out.len() implies out[i].volume
        >= out[j].volume by {
        assert(forall|k: int| 0 <= k < p ==> out[k] == s[k]);
        assert(out[p] == x);
        assert(forall|k: int| p < k < out.len() ==> out[k] == s[k - 1]);
        if i < p && j == p {
            assert(s[i].volume >= s[p - 1].volume);
        }
        if i == p && j > p {
            assert(s[j - 1].volume < x.volume);
        }
    }
}

pub proof fn lemma_insert_desc_multiset(s: Seq<RowView>, x: RowView)
    ensures
        insert_desc(s, x).to_multiset() == s.to_multiset().insert(x),
{
    broadcast use vstd::seq_lib::group_seq_properties;

    lemma_insert_desc_shape(s, x);
    let p = insertion_point(s, x);
    lemma_multiset_commutative(s.take(p) + seq![x], s.skip(p));
    lemma_multiset_commutative(s.take(p), seq![x]);
    lemma_multiset_commutative(s.take(p), s.skip(p));
    assert(s.take(p) + s.skip(p) =~= s);
    assert(seq![x].to_multiset() =~= Multiset::<RowView>::empty().insert(x)) by {
        assert(seq![x].drop_last() =~= Seq::<RowView>::empty());
        assert(Seq::<RowView>::empty().push(x) =~= seq![x]);
    }
    assert(insert_desc(s, x).to_multiset() =~= s.to_multiset().insert(x));
}

pub proof fn lemma_insert_desc_filter(s: Seq<RowView>, x: RowView, v: int)
    ensures
        insert_desc(s, x).filter(has_volume(v)) == if x.volume == v {
            s.filter(has_volume(v)).push(x)
        } else {
            s.filter(has_volume(v))
        },
{
    broadcast use vstd::seq_lib::group_filter_ensures;

    lemma_insert_desc_shape(s, x);
    let p = insertion_point(s, x);
    let pred = has_volume(v);
    reveal_with_fuel(Seq::filter, 2);
    assert(seq![x].drop_last() =~= Seq::<RowView>::empty());
    assert(seq![x].filter(pred) == if pred(x) {
        seq![x]
    } else {
        Seq::<RowView>::empty()
    });
    assert(s.take(p) + s.skip(p) =~= s);
    assert(s.filter(pred) == s.take(p).filter(pred) + s.skip(p).filter(pred));
    if x.volume == v {
        // every row after the insertion point has a strictly smaller
        // volume, so the suffix contributes nothing at volume v
        assert(s.skip(p).all(|r: RowView| !pred(r))) by {
            assert(forall|k: int| 0 <= k < s.skip(p).len() ==> (#[trigger] s.skip(p)[k]).volume
                < x.volume);
        }
        s.skip(p).lemma_all_neg_filter_empty(pred);
        assert(insert_desc(s, x).filter(pred) =~= s.filter(pred).push(x)) by {
            assert(insert_desc(s, x).filter(pred) == s.take(p).filter(pred) + seq![x] + s.skip(
                p,
            ).filter(pred));
            assert(s.skip(p).filter(pred) =~= Seq::<RowView>::empty());
        }
    } else {
        assert(insert_desc(s, x).filter(pred) =~= s.filter(pred));
    }
}

/// The ranked order is descending by volume.
pub proof fn lemma_rank_sorted(s: Seq<RowView>)
    ensures
        sorted_desc(rank_spec(s)),
    decreases s.len(),
{
    if s.len() > 0 {
        lemma_rank_sorted(s.drop_last());
        lemma_insert_desc_sorted(rank_spec(s.drop_last()), s.last());
    }
}

/// The ranked order is a permutation of the input rows.
pub proof fn lemma_rank_multiset(s: Seq<RowView>)
    ensures
        rank_spec(s).to_multiset() == s.to_multiset(),
    decreases s.len(),
{
    broadcast use vstd::seq_lib::group_seq_properties;

    if s.len() > 0 {
        lemma_rank_multiset(s.drop_last());
        lemma_insert_desc_multiset(rank_spec(s.drop_last()), s.last());
        assert(s.drop_last().push(s.last()) =~= s);
        assert(s.drop_last().push(s.last()).to_multiset() =~= s.drop_last().to_multiset().insert(
            s.last(),
        ));
    }
}

/// Stability: for every volume, the rows carrying exactly that volume
/// appear in the ranked order in the same relative order as in the
/// input.
pub proof fn lemma_rank_stable(s: Seq<RowView>, v: int)
    ensures
        rank_spec(s).filter(has_volume(v)) == s.filter(has_volume(v)),
    decreases s.len(),
{
    broadcast use vstd::seq_lib::group_filter_ensures;

    let pred = has_volume(v);
    if s.len() > 0 {
        lemma_rank_stable(s.drop_last(), v);
        lemma_insert_desc_filter(rank_spec(s.drop_last()), s.last(), v);
        assert(s.drop_last() + seq![s.last()] =~= s);
        reveal_with_fuel(Seq::filter, 2);
        assert(seq![s.last()].drop_last() =~= Seq::<RowView>::empty());
        if pred(s.last()) {
            assert(s.filter(pred) =~= s.drop_last().filter(pred).push(s.last()));
        } else {
            assert(s.filter(pred) =~= s.drop_last().filter(pred));
        }
    }
}

fn insert_row(v: Vec<Row>, x: Row) -> (r: Vec<Row>)
    ensures
        r.deep_view() == insert_desc(v.deep_view(), x.deep_view()),
    decreases v@.len(),
{
    let mut v = v;
    let n: usize = v.len();
    let ghost pre = v.deep_view();
    let ghost xv = x.deep_view();
    if n > 0 && v[n - 1].volume.units < x.volume.units {
        match v.pop() {
            Some(last) => {
                proof {
                    assert(v.deep_view() =~= pre.drop_last());
                    assert(last.deep_view() == pre.last());
                }
                let mut r = insert_row(v, x);
                let ghost mid = r.deep_view();
                r.push(last);
                proof {
                    assert(r.deep_view() =~= mid.push(pre.last()));
                }
                r
            },
            None => {
                proof {
                    assert(false);
                }
                v
            },
        }
    } else {
        v.push(x);
        proof {
            assert(v.deep_view() =~= pre.push(xv));
        }
        v
    }
}

/// Stable sort by volume, descending: the result is exactly the
/// insertion order of the specification, hence sorted, a permutation of
/// the input, and stable across equal volumes.
pub fn rank(rows: Vec<Row>) -> (r: Vec<Row>)
    ensures
        r.deep_view() == rank_spec(rows.deep_view()),
        sorted_desc(r.deep_view()),
        r.deep_view().to_multiset() == rows.deep_view().to_multiset(),
        (forall|j: int| 0 <= j < rows.deep_view().len() ==> (#[trigger] rows.deep_view()[j]).wf())
            ==> (forall|i: int| 0 <= i < r.deep_view().len() ==> (#[trigger] r.deep_view()[i]).wf()),
{
    let ghost orig = rows.deep_view();
    let mut rest = rows;
    let mut acc: Vec<Row> = Vec::new();
    let ghost mut k: int = 0;
    proof {
        assert(rest.deep_view() =~= orig.skip(0));
        assert(acc.deep_view() =~= rank_spec(orig.take(0)));
    }
    while rest.len() > 0
        invariant
            0 <= k <= orig.len(),
            rest.deep_view() == orig.skip(k),
            acc.deep_view() == rank_spec(orig.take(k)),
        decreases rest@.len(),
    {
        let ghost pre = rest.deep_view();
        let x = rest.remove(0);
        proof {
            assert(rest.deep_view() =~= pre.drop_first());
            assert(pre.drop_first() =~= orig.skip(k + 1));
            assert(pre[0] == x.deep_view());
            assert(pre[0] == orig.skip(k)[0]);
            assert(x.deep_view() == orig[k]);
        }
        acc = insert_row(acc, x);
        proof {
            assert(orig.take(k + 1).drop_last() =~= orig.take(k));
            assert(orig.take(k + 1).last() == orig[k]);
            k = k + 1;
        }
    }
    proof {
        assert(orig.skip(k).len() == 0);
        assert(k == orig.len());
        assert(orig.take(k) =~= orig);
        lemma_rank_sorted(orig);
        lemma_rank_multiset(orig);
        lemma_rank_wf(orig);
        if (forall|j: int| 0 <= j < orig.len() ==> (#[trigger] orig[j]).wf()) {
            assert forall|i: int| 0 <= i < rank_spec(orig).len() implies (#[trigger] rank_spec(
                orig,
            )[i]).wf() by {
                let e = rank_spec(orig)[i];
                assert(orig.contains(e));
                let w = choose|w: int| 0 <= w < orig.len() && orig[w] == e;
                assert(orig[w].wf());
            }
        }
    }
    acc
}

/// The first `top` rows, or all of them if there are fewer: the slice
/// that both output modes display.
pub fn take_top(rows: Vec<Row>, top: usize) -> (r: Vec<Row>)
    ensures
        r.deep_view() == rows.deep_view().take(
            if top as int <= rows@.len() {
                top as int
            } else {
                rows@.len() as int
            },
        ),
        forall|i: int| 0 <= i < r@.len() ==> r@[i] == rows@[i],
{
    let mut r = rows;
    let ghost orig = r;
    r.truncate(top);
    proof {
        if top <= orig@.len() {
            assert(r.deep_view() =~= orig.deep_view().take(top as int));
        } else {
            assert(r.deep_view() =~= orig.deep_view().take(orig@.len() as int));
        }
    }
    r
}

/// Ranking introduces no row: a ranked row was an input row.
pub proof fn lemma_rank_wf(s: Seq<RowView>)
    ensures
        forall|i: int| 0 <= i < rank_spec(s).len() ==> s.contains(#[trigger] rank_spec(s)[i]),
{
    broadcast use vstd::seq_lib::group_seq_properties;

    lemma_rank_multiset(s);
    assert forall|i: int| 0 <= i < rank_spec(s).len() implies s.contains(
        #[trigger] rank_spec(s)[i],
    ) by {
        assert(rank_spec(s).contains(rank_spec(s)[i]));
        assert(rank_spec(s).to_multiset().count(rank_spec(s)[i]) > 0);
    }
}

} // verus!
