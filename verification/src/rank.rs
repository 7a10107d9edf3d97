//! Ranking engine: a stable ascending sort of probe outcomes by latency.
//!
//! Successful outcomes order by their measured latency; every unsuccessful
//! outcome is placed after all successful ones.  The sort is stable, so
//! latency ties among successful outcomes, and the unsuccessful outcomes among
//! themselves, keep their original catalog order.

use vstd::prelude::*;
use vstd::seq_lib::lemma_multiset_commutative;
use crate::model::ProbeOutcome;
use crate::model::ProbeStatus;

verus! {

/// One key value above every possible latency, shared by all unsuccessful
/// outcomes.
pub open spec fn failure_key() -> int {
    0x1_0000_0000_0000_0000
}

/// Sort key of an outcome: the latency for a success, `failure_key()`
/// otherwise, so unsuccessful outcomes land after all successful ones.
pub open spec fn sort_key(o: ProbeOutcome) -> int {
    if o.status is Success {
        o.latency_micros as int
    } else {
        failure_key()
    }
}

/// The class of outcomes that share sort key `k`.
pub open spec fn key_class(k: int) -> spec_fn(ProbeOutcome) -> bool {
    |o: ProbeOutcome| sort_key(o) == k
}

/// Successful outcomes tied at latency `lat`.
pub open spec fn tied_success(lat: u64) -> spec_fn(ProbeOutcome) -> bool {
    |o: ProbeOutcome| o.status is Success && o.latency_micros == lat
}

/// The unsuccessful outcomes.
pub open spec fn unsuccessful() -> spec_fn(ProbeOutcome) -> bool {
    |o: ProbeOutcome| !(o.status is Success)
}

/// Keys are non-decreasing along the sequence.
pub open spec fn ranked_le(s: Seq<ProbeOutcome>) -> bool {
    forall|i: int, j: int| 0 <= i <= j < s.len() ==> sort_key(s[i]) <= sort_key(s[j])
}

/// Insert `x` after every element whose key is at most `sort_key(x)`: the
/// placement a stable sort gives the latest-probed outcome.
pub open spec fn insert_ranked(x: ProbeOutcome, s: Seq<ProbeOutcome>) -> Seq<ProbeOutcome>
    decreases s.len(),
{
    if s.len() == 0 {
        seq![x]
    } else if sort_key(s[0]) <= sort_key(x) {
        seq![s[0]] + insert_ranked(x, s.drop_first())
    } else {
        seq![x] + s
    }
}

/// Stable insertion sort of the catalog-ordered outcome sequence.
pub open spec fn rank_spec(s: Seq<ProbeOutcome>) -> Seq<ProbeOutcome>
    decreases s.len(),
{
    if s.len() == 0 {
        Seq::empty()
    } else {
        insert_ranked(s.last(), rank_spec(s.drop_last()))
    }
}

/// When `j` is the first position whose key exceeds `sort_key(x)`, the stable
/// insertion is exactly `s.insert(j, x)`.
proof fn lemma_insert_ranked_at(x: ProbeOutcome, s: Seq<ProbeOutcome>, j: int)
    requires
        0 <= j <= s.len(),
        forall|k: int| 0 <= k < j ==> sort_key(s[k]) <= sort_key(x),
        j == s.len() || sort_key(s[j]) > sort_key(x),
    ensures
        insert_ranked(x, s) == s.insert(j, x),
    decreases s.len(),
{
    if s.len() == 0 {
        assert(insert_ranked(x, s) =~= s.insert(0, x));
    } else if j == 0 {
        assert(insert_ranked(x, s) =~= s.insert(0, x));
    } else {
        assert(sort_key(s[0]) <= sort_key(x));
        lemma_insert_ranked_at(x, s.drop_first(), j - 1);
        assert(insert_ranked(x, s) =~= s.insert(j, x));
    }
}

/// Every element of the insertion result is `x` or an element of `s`.
proof fn lemma_insert_ranked_elems(x: ProbeOutcome, s: Seq<ProbeOutcome>)
    ensures
        insert_ranked(x, s).len() == s.len() + 1,
        forall|k: int|
            0 <= k < insert_ranked(x, s).len() ==> insert_ranked(x, s)[k] == x || s.contains(
                insert_ranked(x, s)[k],
            ),
    decreases s.len(),
{
    if s.len() == 0 {
    } else if sort_key(s[0]) <= sort_key(x) {
        lemma_insert_ranked_elems(x, s.drop_first());
        let t = insert_ranked(x, s.drop_first());
        assert forall|k: int|
            0 <= k < insert_ranked(x, s).len() implies insert_ranked(x, s)[k] == x || s.contains(
            insert_ranked(x, s)[k],
        ) by {
            if k == 0 {
                assert(s.contains(s[0]));
            } else {
                assert(insert_ranked(x, s)[k] == t[k - 1]);
                if t[k - 1] == x {
                } else {
                    let i = choose|i: int|
                        0 <= i < s.drop_first().len() && s.drop_first()[i] == t[k - 1];
                    assert(s[i + 1] == t[k - 1]);
                }
            }
        }
    } else {
        assert forall|k: int|
            0 <= k < insert_ranked(x, s).len() implies insert_ranked(x, s)[k] == x || s.contains(
            insert_ranked(x, s)[k],
        ) by {
            if k > 0 {
                assert(insert_ranked(x, s)[k] == s[k - 1]);
            }
        }
    }
}

/// Stable insertion keeps the keys non-decreasing.
proof fn lemma_insert_ranked_le(x: ProbeOutcome, s: Seq<ProbeOutcome>)
    requires
        ranked_le(s),
    ensures
        ranked_le(insert_ranked(x, s)),
    decreases s.len(),
{
    if s.len() == 0 {
    } else if sort_key(s[0]) <= sort_key(x) {
        assert(ranked_le(s.drop_first()));
        lemma_insert_ranked_le(x, s.drop_first());
        lemma_insert_ranked_elems(x, s.drop_first());
        let r = insert_ranked(x, s);
        let t = insert_ranked(x, s.drop_first());
        assert forall|i: int, j: int| 0 <= i <= j < r.len() implies sort_key(r[i]) <= sort_key(
            r[j],
        ) by {
            if i == 0 && j > 0 {
                assert(r[j] == t[j - 1]);
                if t[j - 1] == x {
                } else {
                    let m = choose|m: int|
                        0 <= m < s.drop_first().len() && s.drop_first()[m] == t[j - 1];
                    assert(s[m + 1] == t[j - 1]);
                    assert(sort_key(s[0]) <= sort_key(s[m + 1]));
                }
            } else if i > 0 {
                assert(r[i] == t[i - 1] && r[j] == t[j - 1]);
            }
        }
    } else {
        let r = insert_ranked(x, s);
        assert forall|i: int, j: int| 0 <= i <= j < r.len() implies sort_key(r[i]) <= sort_key(
            r[j],
        ) by {
            if i == 0 && j > 0 {
                assert(r[j] == s[j - 1]);
                assert(sort_key(s[0]) <= sort_key(s[j - 1]));
            } else if i > 0 {
                assert(r[i] == s[i - 1] && r[j] == s[j - 1]);
            }
        }
    }
}

/// Stable insertion adds exactly `x` to the multiset of outcomes.
proof fn lemma_insert_ranked_multiset(x: ProbeOutcome, s: Seq<ProbeOutcome>)
    ensures
        insert_ranked(x, s).to_multiset() =~= s.push(x).to_multiset(),
    decreases s.len(),
{
    broadcast use vstd::seq_lib::group_to_multiset_ensures;

    if s.len() == 0 {
        assert(seq![x] =~= Seq::<ProbeOutcome>::empty().push(x));
    } else if sort_key(s[0]) <= sort_key(x) {
        lemma_insert_ranked_multiset(x, s.drop_first());
        let t = insert_ranked(x, s.drop_first());
        lemma_multiset_commutative(seq![s[0]], t);
        assert(seq![s[0]] =~= Seq::<ProbeOutcome>::empty().push(s[0]));
        // s.push(x) == (seq![s[0]] + s.drop_first().push(x))
        assert(s.push(x) =~= seq![s[0]] + s.drop_first().push(x));
        lemma_multiset_commutative(seq![s[0]], s.drop_first().push(x));
    } else {
        assert(seq![x] + s =~= s.insert(0, x));
        vstd::seq_lib::to_multiset_insert(s, 0, x);
    }
}

/// Stable insertion keeps each key class in order: filtering the insertion
/// result by one key class gives the same subsequence as filtering the input
/// with `x` appended.
proof fn lemma_insert_ranked_filter(x: ProbeOutcome, s: Seq<ProbeOutcome>, k: int)
    requires
        ranked_le(s),
    ensures
        insert_ranked(x, s).filter(key_class(k)) == s.push(x).filter(key_class(k)),
    decreases s.len(),
{
    broadcast use Seq::filter_distributes_over_add;

    let p = key_class(k);
    if s.len() == 0 {
        assert(s =~= Seq::<ProbeOutcome>::empty());
        assert(s.push(x) =~= seq![x]);
    } else if sort_key(s[0]) <= sort_key(x) {
        assert(ranked_le(s.drop_first()));
        lemma_insert_ranked_filter(x, s.drop_first(), k);
        let t = insert_ranked(x, s.drop_first());
        let d = s.drop_first();
        assert(insert_ranked(x, s) == seq![s[0]] + t);
        assert((seq![s[0]] + t).filter(p) == seq![s[0]].filter(p) + t.filter(p));
        assert(d.push(x) =~= d + seq![x]);
        assert((d + seq![x]).filter(p) == d.filter(p) + seq![x].filter(p));
        assert(t.filter(p) == d.filter(p) + seq![x].filter(p));
        let u = seq![s[0]] + (d + seq![x]);
        assert(u.filter(p) == seq![s[0]].filter(p) + (d + seq![x]).filter(p));
        assert(s.push(x) =~= u);
        assert(seq![s[0]].filter(p) + (d.filter(p) + seq![x].filter(p)) =~= (seq![s[0]].filter(p)
            + d.filter(p)) + seq![x].filter(p));
        assert(insert_ranked(x, s).filter(p) == seq![s[0]].filter(p) + (d.filter(p)
            + seq![x].filter(p)));
        assert(s.push(x).filter(p) == (seq![s[0]].filter(p) + d.filter(p)) + seq![x].filter(p));
    } else {
        // x lands in front: its key is below the key of every element of s.
        assert(insert_ranked(x, s) == seq![x] + s);
        assert((seq![x] + s).filter(p) == seq![x].filter(p) + s.filter(p));
        let u = s + seq![x];
        assert(u.filter(p) == s.filter(p) + seq![x].filter(p));
        assert(s.push(x) =~= u);
        lemma_filter_singleton(x, p);
        if p(x) {
            // Every element of s has a key above k, so none is in the class.
            assert forall|i: int| 0 <= i < s.len() implies !p(s[i]) by {
                assert(sort_key(s[0]) <= sort_key(s[i]));
            }
            lemma_filter_all_out(s, p);
            assert(seq![x].filter(p) + s.filter(p) =~= s.filter(p) + seq![x].filter(p));
        } else {
            assert(seq![x].filter(p) + s.filter(p) =~= s.filter(p) + seq![x].filter(p));
        }
    }
}

/// Filtering a singleton keeps or drops its one element.
proof fn lemma_filter_singleton(x: ProbeOutcome, p: spec_fn(ProbeOutcome) -> bool)
    ensures
        p(x) ==> seq![x].filter(p) == seq![x],
        !p(x) ==> seq![x].filter(p) == Seq::<ProbeOutcome>::empty(),
{
    reveal(Seq::filter);
    assert(seq![x].drop_last() =~= Seq::<ProbeOutcome>::empty());
    assert(Seq::<ProbeOutcome>::empty().filter(p) =~= Seq::<ProbeOutcome>::empty());
    assert(seq![x].last() == x);
    if p(x) {
        assert(seq![x].filter(p) =~= Seq::<ProbeOutcome>::empty().push(x));
        assert(Seq::<ProbeOutcome>::empty().push(x) =~= seq![x]);
    }
}

/// A filter that rejects every element yields the empty sequence.
proof fn lemma_filter_all_out(s: Seq<ProbeOutcome>, p: spec_fn(ProbeOutcome) -> bool)
    requires
        forall|i: int| 0 <= i < s.len() ==> !p(s[i]),
    ensures
        s.filter(p) =~= Seq::<ProbeOutcome>::empty(),
    decreases s.len(),
{
    reveal(Seq::filter);
    if s.len() > 0 {
        lemma_filter_all_out(s.drop_last(), p);
    }
}

/// The ranked sequence has non-decreasing keys and is a permutation of the
/// input.
pub proof fn lemma_rank_spec_ensures(s: Seq<ProbeOutcome>)
    ensures
        ranked_le(rank_spec(s)),
        rank_spec(s).to_multiset() =~= s.to_multiset(),
        rank_spec(s).len() == s.len(),
    decreases s.len(),
{
    broadcast use vstd::seq_lib::group_to_multiset_ensures;

    if s.len() == 0 {
    } else {
        lemma_rank_spec_ensures(s.drop_last());
        let t = rank_spec(s.drop_last());
        lemma_insert_ranked_le(s.last(), t);
        lemma_insert_ranked_elems(s.last(), t);
        lemma_insert_ranked_multiset(s.last(), t);
        assert(s.drop_last().push(s.last()) =~= s);
        assert(t.push(s.last()).to_multiset() =~= t.to_multiset().insert(s.last()));
        assert(s.drop_last().push(s.last()).to_multiset() =~= s.drop_last().to_multiset().insert(
            s.last(),
        ));
    }
}

/// Ranking keeps each key class of outcomes in its original order.
pub proof fn lemma_rank_spec_stable(s: Seq<ProbeOutcome>, k: int)
    ensures
        rank_spec(s).filter(key_class(k)) == s.filter(key_class(k)),
    decreases s.len(),
{
    broadcast use Seq::filter_distributes_over_add;

    if s.len() == 0 {
    } else {
        let t = rank_spec(s.drop_last());
        lemma_rank_spec_stable(s.drop_last(), k);
        lemma_rank_spec_ensures(s.drop_last());
        lemma_insert_ranked_filter(s.last(), t, k);
        let p = key_class(k);
        assert(t.push(s.last()) =~= t + seq![s.last()]);
        assert(t.push(s.last()).filter(p) == t.filter(p) + seq![s.last()].filter(p));
        assert(s =~= s.drop_last() + seq![s.last()]);
        assert(s.filter(p) == s.drop_last().filter(p) + seq![s.last()].filter(p));
    }
}

/// Ranked output is non-decreasing in latency among successful outcomes, and
/// every successful outcome precedes every unsuccessful one.
pub proof fn lemma_rank_orders_outcomes(s: Seq<ProbeOutcome>)
    ensures
        forall|i: int, j: int|
            0 <= i <= j < rank_spec(s).len() && rank_spec(s)[i].status is Success && rank_spec(
                s,
            )[j].status is Success ==> rank_spec(s)[i].latency_micros <= rank_spec(
                s,
            )[j].latency_micros,
        forall|i: int, j: int|
            0 <= i <= j < rank_spec(s).len() && rank_spec(s)[j].status is Success ==> rank_spec(
                s,
            )[i].status is Success,
{
    lemma_rank_spec_ensures(s);
}

/// Latency ties among successful outcomes keep their original catalog order:
/// the successful outcomes tied at any one latency form the same subsequence
/// before and after ranking.
pub proof fn lemma_rank_ties_keep_order(s: Seq<ProbeOutcome>, lat: u64)
    ensures
        rank_spec(s).filter(tied_success(lat)) == s.filter(tied_success(lat)),
{
    lemma_rank_spec_stable(s, lat as int);
    lemma_filter_congruent(rank_spec(s), key_class(lat as int), tied_success(lat));
    lemma_filter_congruent(s, key_class(lat as int), tied_success(lat));
}

/// The unsuccessful outcomes keep their original catalog order among
/// themselves.
pub proof fn lemma_rank_failures_keep_order(s: Seq<ProbeOutcome>)
    ensures
        rank_spec(s).filter(unsuccessful()) == s.filter(unsuccessful()),
{
    lemma_rank_spec_stable(s, failure_key());
    lemma_filter_congruent(rank_spec(s), key_class(failure_key()), unsuccessful());
    lemma_filter_congruent(s, key_class(failure_key()), unsuccessful());
}

/// Filtering by pointwise-equal predicates gives equal results.
proof fn lemma_filter_congruent(
    s: Seq<ProbeOutcome>,
    pred_a: spec_fn(ProbeOutcome) -> bool,
    pred_b: spec_fn(ProbeOutcome) -> bool,
)
    requires
        forall|o: ProbeOutcome| #[trigger] pred_a(o) == #[trigger] pred_b(o),
    ensures
        s.filter(pred_a) == s.filter(pred_b),
    decreases s.len(),
{
    reveal(Seq::filter);
    if s.len() > 0 {
        lemma_filter_congruent(s.drop_last(), pred_a, pred_b);
    }
}

/// Key order, computed: `sort_key(*a) <= sort_key(*b)`.
fn outcome_le(a: &ProbeOutcome, b: &ProbeOutcome) -> (r: bool)
    ensures
        r == (sort_key(*a) <= sort_key(*b)),
{
    match (a.status, b.status) {
        (ProbeStatus::Success, ProbeStatus::Success) => a.latency_micros <= b.latency_micros,
        (ProbeStatus::Success, _) => true,
        (_, ProbeStatus::Success) => false,
        _ => true,
    }
}

/// Rank the probe outcomes: a stable ascending sort by latency with every
/// unsuccessful outcome after all successful ones.
pub fn rank(outcomes: Vec<ProbeOutcome>) -> (r: Vec<ProbeOutcome>)
    ensures
        r@ == rank_spec(outcomes@),
{
    let ghost s = outcomes@;
    let mut v = outcomes;
    let mut r: Vec<ProbeOutcome> = Vec::new();
    while v.len() > 0
        invariant
            v@ == s.skip(s.len() - v.len()),
            r@ == rank_spec(s.take(s.len() - v.len())),
            v.len() <= s.len(),
        decreases v.len(),
    {
        let ghost p = s.len() - v.len();
        let x = v.remove(0);
        assert(x == s[p]);
        assert(v@ =~= s.skip(p + 1));
        let mut j: usize = 0;
        while j < r.len() && outcome_le(&r[j], &x)
            invariant
                0 <= j <= r.len(),
                forall|k: int| 0 <= k < j ==> sort_key(r@[k]) <= sort_key(x),
            decreases r.len() - j,
        {
            j += 1;
        }
        proof {
            lemma_insert_ranked_at(x, r@, j as int);
        }
        r.insert(j, x);
        proof {
            assert(s.take(p + 1).drop_last() =~= s.take(p));
            assert(s.take(p + 1).last() == s[p]);
        }
    }
    proof {
        assert(s.take(s.len() as int) =~= s);
    }
    r
}

/// The ranked winner: the first ranked outcome's address, provided it is
/// successful; `None` when no candidate was reachable.
pub open spec fn ranked_winner(r: Seq<ProbeOutcome>) -> Option<Seq<char>> {
    if r.len() > 0 && r[0].status is Success {
        Some(r[0].candidate.address@)
    } else {
        None
    }
}

/// The winner the pipeline applies, as a function of the raw outcomes.
pub open spec fn winner_of(s: Seq<ProbeOutcome>) -> Option<Seq<char>> {
    ranked_winner(rank_spec(s))
}

/// Select the winner from a ranked sequence.
pub fn select_winner(ranked: &Vec<ProbeOutcome>) -> (w: Option<String>)
    ensures
        match w {
            Some(a) => ranked_winner(ranked@) == Some(a@),
            None => ranked_winner(ranked@) is None,
        },
{
    if ranked.len() > 0 {
        let first = &ranked[0];
        match first.status {
            ProbeStatus::Success => Some(first.candidate.address.clone()),
            _ => None,
        }
    } else {
        None
    }
}

/// The winner is one of the given outcomes, is successful, and no successful
/// outcome has a smaller latency.
pub proof fn lemma_winner_minimal(s: Seq<ProbeOutcome>)
    requires
        winner_of(s) is Some,
    ensures
        rank_spec(s).len() == s.len(),
        rank_spec(s)[0].status is Success,
        rank_spec(s)[0].candidate.address@ == winner_of(s).unwrap(),
        s.to_multiset().contains(rank_spec(s)[0]),
        forall|j: int|
            0 <= j < s.len() && (#[trigger] s[j]).status is Success ==> rank_spec(
                s,
            )[0].latency_micros <= s[j].latency_micros,
{
    broadcast use vstd::seq_lib::group_to_multiset_ensures;

    lemma_rank_spec_ensures(s);
    let r = rank_spec(s);
    assert(r.contains(r[0]));
    assert(s.to_multiset().count(r[0]) > 0);
    assert forall|j: int|
        0 <= j < s.len() && (#[trigger] s[j]).status is Success implies r[0].latency_micros
        <= s[j].latency_micros by {
        assert(s.contains(s[j]));
        assert(s.to_multiset().count(s[j]) > 0);
        assert(r.to_multiset().count(s[j]) > 0);
        assert(r.contains(s[j]));
        let m = choose|m: int| 0 <= m < r.len() && r[m] == s[j];
        assert(sort_key(r[0]) <= sort_key(r[m]));
    }
}

/// A winner exists exactly when some probe succeeded.
pub proof fn lemma_winner_exists(s: Seq<ProbeOutcome>)
    ensures
        winner_of(s) is Some <==> exists|i: int| 0 <= i < s.len() && s[i].status is Success,
{
    broadcast use vstd::seq_lib::group_to_multiset_ensures;

    lemma_rank_spec_ensures(s);
    let r = rank_spec(s);
    if winner_of(s) is Some {
        assert(r.contains(r[0]));
        assert(r.to_multiset().count(r[0]) > 0);
        assert(s.to_multiset().count(r[0]) > 0);
        assert(s.contains(r[0]));
        let i = choose|i: int| 0 <= i < s.len() && s[i] == r[0];
        assert(s[i].status is Success);
    } else {
    }
    if exists|i: int| 0 <= i < s.len() && s[i].status is Success {
        let i = choose|i: int| 0 <= i < s.len() && s[i].status is Success;
        assert(s.contains(s[i]));
        assert(s.to_multiset().count(s[i]) > 0);
        assert(r.to_multiset().count(s[i]) > 0);
        assert(r.contains(s[i]));
        let j = choose|j: int| 0 <= j < r.len() && r[j] == s[i];
        if !(r[0].status is Success) {
            assert(sort_key(r[0]) <= sort_key(r[j]));
            assert(sort_key(r[0]) == failure_key());
            assert(sort_key(r[j]) < failure_key());
        }
        assert(winner_of(s) is Some);
    }
}

} // verus!
