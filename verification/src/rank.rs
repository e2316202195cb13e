//! Ranking by recency and windowing.
//!
//! The ranking is a stable sort, most recent tip first: among branches whose
//! tips carry the same time, the catalog order is kept.

use vstd::prelude::*;
use crate::branch::{catalog, BranchInfo, BranchRecord, CommitTime};
use crate::config::Config;

verus! {

/// How many records at the head of `tail` are strictly more recent than `r`.
pub open spec fn lead(r: BranchRecord, tail: Seq<BranchRecord>) -> nat
    decreases tail.len(),
{
    if tail.len() > 0 && tail[0].commit_time.after(r.commit_time) {
        1 + lead(r, tail.drop_first())
    } else {
        0
    }
}

/// `tail` with `r` put in behind the records at its head that are strictly
/// more recent than `r`, and in front of all the others.
pub open spec fn place(r: BranchRecord, tail: Seq<BranchRecord>) -> Seq<BranchRecord> {
    tail.insert(lead(r, tail) as int, r)
}

/// The ranking of a catalog: each record, from the last to the first, is
/// placed into the ranking of those that follow it.
pub open spec fn ranked(records: Seq<BranchRecord>) -> Seq<BranchRecord>
    decreases records.len(),
{
    if records.len() == 0 {
        records
    } else {
        place(records[0], ranked(records.drop_first()))
    }
}

/// No record of `records` is strictly more recent than one that stands before it.
pub open spec fn descending(records: Seq<BranchRecord>) -> bool {
    forall|i: int, j: int|
        0 <= i < j < records.len() ==> !(#[trigger] records[j]).commit_time.after(
            (#[trigger] records[i]).commit_time,
        )
}

/// Each record of `records` is strictly more recent than all that follow it.
pub open spec fn strictly_descending(records: Seq<BranchRecord>) -> bool {
    forall|i: int, j: int|
        0 <= i < j < records.len() ==> (#[trigger] records[i]).commit_time.after(
            (#[trigger] records[j]).commit_time,
        )
}

/// No two records of `records` carry the same commit time.
pub open spec fn distinct_times(records: Seq<BranchRecord>) -> bool {
    forall|i: int, j: int|
        0 <= i < j < records.len() ==> (#[trigger] records[i]).commit_time
            != (#[trigger] records[j]).commit_time
}

/// The records of `records` whose commit time is `time`, in order.
pub open spec fn at_time(records: Seq<BranchRecord>, time: CommitTime) -> Seq<BranchRecord> {
    records.filter(|r: BranchRecord| r.commit_time == time)
}

/// The first `limit` records, or all of them where there are fewer or no
/// limit is set.
pub open spec fn windowed(records: Seq<BranchRecord>, limit: Option<usize>) -> Seq<BranchRecord> {
    match limit {
        Some(n) => if n < records.len() {
            records.take(n as int)
        } else {
            records
        },
        None => records,
    }
}

/// `lead(r, tail)` is the one position with only strictly more recent records
/// in front of it and a record that is not so, or nothing, at it.
pub proof fn lemma_lead_at(r: BranchRecord, tail: Seq<BranchRecord>, k: int)
    requires
        0 <= k <= tail.len(),
        forall|j: int| 0 <= j < k ==> (#[trigger] tail[j]).commit_time.after(r.commit_time),
        k < tail.len() ==> !tail[k].commit_time.after(r.commit_time),
    ensures
        lead(r, tail) == k,
    decreases k,
{
    if k > 0 {
        assert(tail[0].commit_time.after(r.commit_time));
        let rest = tail.drop_first();
        assert forall|j: int| 0 <= j < k - 1 implies (#[trigger] rest[j]).commit_time.after(
            r.commit_time,
        ) by {
            assert(rest[j] == tail[j + 1]);
        }
        lemma_lead_at(r, rest, k - 1);
    }
}

/// The position that `lead` gives lies within `tail`, every record in front
/// of it is strictly more recent than `r`, and the record at it is not.
pub proof fn lemma_lead_bounds(r: BranchRecord, tail: Seq<BranchRecord>)
    ensures
        lead(r, tail) <= tail.len(),
        forall|j: int| 0 <= j < lead(r, tail) ==> (#[trigger] tail[j]).commit_time.after(
            r.commit_time,
        ),
        lead(r, tail) < tail.len() ==> !tail[lead(r, tail) as int].commit_time.after(
            r.commit_time,
        ),
    decreases tail.len(),
{
    if tail.len() > 0 && tail[0].commit_time.after(r.commit_time) {
        let rest = tail.drop_first();
        lemma_lead_bounds(r, rest);
        assert forall|j: int| 0 <= j < lead(r, tail) implies (#[trigger] tail[j]).commit_time.after(
            r.commit_time,
        ) by {
            if j > 0 {
                assert(tail[j] == rest[j - 1]);
            }
        }
        if lead(r, tail) < tail.len() {
            assert(tail[lead(r, tail) as int] == rest[lead(r, rest) as int]);
        }
    }
}

/// Ranking neither adds nor drops a record.
pub proof fn lemma_ranked_len(records: Seq<BranchRecord>)
    ensures
        ranked(records).len() == records.len(),
    decreases records.len(),
{
    if records.len() > 0 {
        lemma_ranked_len(records.drop_first());
        lemma_lead_bounds(records[0], ranked(records.drop_first()));
    }
}

/// Placing a record into a descending sequence leaves it descending.
proof fn lemma_place_descending(r: BranchRecord, tail: Seq<BranchRecord>)
    requires
        descending(tail),
    ensures
        descending(place(r, tail)),
{
    lemma_lead_bounds(r, tail);
    let k = lead(r, tail) as int;
    let out = place(r, tail);
    assert forall|i: int, j: int| 0 <= i < j < out.len() implies !(#[trigger] out[j]).commit_time.after(
        (#[trigger] out[i]).commit_time,
    ) by {
        if i < k {
            assert(out[i] == tail[i]);
        } else if i > k {
            assert(out[i] == tail[i - 1]);
        }
        if j < k {
            assert(out[j] == tail[j]);
        } else if j > k {
            assert(out[j] == tail[j - 1]);
            if i == k && j - 1 > k {
                assert(!tail[j - 1].commit_time.after(tail[k].commit_time));
            }
        }
    }
}

/// A ranking is in descending order of commit time.
pub proof fn lemma_ranked_descending(records: Seq<BranchRecord>)
    ensures
        descending(ranked(records)),
    decreases records.len(),
{
    if records.len() > 0 {
        lemma_ranked_descending(records.drop_first());
        lemma_place_descending(records[0], ranked(records.drop_first()));
    }
}

/// A ranking holds the records of the catalog, each as often as the catalog does.
pub proof fn lemma_ranked_permutation(records: Seq<BranchRecord>)
    ensures
        ranked(records).to_multiset() == records.to_multiset(),
    decreases records.len(),
{
    if records.len() > 0 {
        let rest = records.drop_first();
        lemma_ranked_permutation(rest);
        lemma_lead_bounds(records[0], ranked(rest));
        vstd::seq_lib::to_multiset_insert(ranked(rest), lead(records[0], ranked(rest)) as int, records[0]);
        vstd::seq_lib::to_multiset_insert(rest, 0, records[0]);
        assert(rest.insert(0, records[0]) =~= records);
    }
}

/// Ranking is stable: the records that carry one commit time stand in the
/// ranking in the order in which they stand in the catalog.
pub proof fn lemma_ranked_stable(records: Seq<BranchRecord>, time: CommitTime)
    ensures
        at_time(ranked(records), time) == at_time(records, time),
    decreases records.len(),
{
    if records.len() > 0 {
        let r = records[0];
        let rest = records.drop_first();
        let tail = ranked(rest);
        let k = lead(r, tail) as int;
        let pred = |b: BranchRecord| b.commit_time == time;
        let one = seq![r];
        let front = tail.take(k);
        let back = tail.skip(k);
        lemma_ranked_stable(rest, time);
        lemma_lead_bounds(r, tail);
        assert(records =~= one + rest);
        rest.lemma_filter_prepend(r, pred);
        assert(tail =~= front + back);
        assert(place(r, tail) =~= front + (one + back));
        Seq::filter_distributes_over_add(front, back, pred);
        Seq::filter_distributes_over_add(front, one + back, pred);
        back.lemma_filter_prepend(r, pred);
        if r.commit_time == time {
            assert forall|i: int| 0 <= i < front.len() implies (|b: BranchRecord| !pred(b))(
                #[trigger] front[i],
            ) by {
                assert(front[i] == tail[i]);
            }
            front.lemma_all_neg_filter_empty(pred);
            assert(front.filter(pred) =~= Seq::<BranchRecord>::empty());
            assert(at_time(ranked(records), time) =~= one + back.filter(pred));
            assert(at_time(records, time) =~= one + back.filter(pred));
        } else {
            assert(at_time(ranked(records), time) =~= front.filter(pred) + back.filter(pred));
            assert(at_time(records, time) =~= front.filter(pred) + back.filter(pred));
        }
    }
}

/// The records at one time, taken apart at the first record.
proof fn lemma_at_time_first(records: Seq<BranchRecord>, time: CommitTime)
    requires
        records.len() > 0,
    ensures
        at_time(records, time) == (if records[0].commit_time == time {
            seq![records[0]]
        } else {
            Seq::empty()
        }) + at_time(records.drop_first(), time),
{
    assert(records =~= seq![records[0]] + records.drop_first());
    records.drop_first().lemma_filter_prepend(records[0], |r: BranchRecord| r.commit_time == time);
}

/// Where `other` holds, at the time of the first record of `records`, what
/// `records` holds there, its own first record is no older.
proof fn lemma_head_not_after(records: Seq<BranchRecord>, other: Seq<BranchRecord>)
    requires
        records.len() > 0,
        descending(other),
        at_time(records, records[0].commit_time) == at_time(other, records[0].commit_time),
    ensures
        other.len() > 0,
        !records[0].commit_time.after(other[0].commit_time),
{
    let time = records[0].commit_time;
    let pred = |r: BranchRecord| r.commit_time == time;
    lemma_at_time_first(records, time);
    let found = at_time(other, time)[0];
    other.lemma_filter_pred(pred, 0);
    assert(at_time(other, time).contains(found));
    other.lemma_filter_contains_rev(pred, found);
    let j = choose|j: int| 0 <= j < other.len() && other[j] == found;
    if j > 0 {
        assert(!other[j].commit_time.after(other[0].commit_time));
    }
}

/// Two descending sequences that hold, at every commit time, the same
/// records in the same order are one and the same sequence.
pub proof fn lemma_descending_stable_unique(a: Seq<BranchRecord>, b: Seq<BranchRecord>)
    requires
        descending(a),
        descending(b),
        forall|time: CommitTime| #[trigger] at_time(a, time) == at_time(b, time),
    ensures
        a == b,
    decreases a.len(),
{
    if a.len() == 0 {
        if b.len() > 0 {
            lemma_at_time_first(b, b[0].commit_time);
            reveal(Seq::filter);
            assert(at_time(a, b[0].commit_time).len() == 0);
            assert(at_time(b, b[0].commit_time).len() > 0);
        }
        assert(a =~= b);
    } else {
        assert(at_time(a, a[0].commit_time) == at_time(b, a[0].commit_time));
        lemma_head_not_after(a, b);
        assert(at_time(b, b[0].commit_time) == at_time(a, b[0].commit_time));
        lemma_head_not_after(b, a);
        let time = a[0].commit_time;
        assert(b[0].commit_time == time);
        lemma_at_time_first(a, time);
        lemma_at_time_first(b, time);
        assert(at_time(a, time)[0] == a[0]);
        assert(at_time(b, time)[0] == b[0]);
        let a_rest = a.drop_first();
        let b_rest = b.drop_first();
        assert(descending(a_rest)) by {
            assert forall|i: int, j: int| 0 <= i < j < a_rest.len() implies !(
            #[trigger] a_rest[j]).commit_time.after((#[trigger] a_rest[i]).commit_time) by {
                assert(a_rest[i] == a[i + 1]);
                assert(a_rest[j] == a[j + 1]);
            }
        }
        assert(descending(b_rest)) by {
            assert forall|i: int, j: int| 0 <= i < j < b_rest.len() implies !(
            #[trigger] b_rest[j]).commit_time.after((#[trigger] b_rest[i]).commit_time) by {
                assert(b_rest[i] == b[i + 1]);
                assert(b_rest[j] == b[j + 1]);
            }
        }
        assert forall|t: CommitTime| #[trigger] at_time(a_rest, t) == at_time(b_rest, t) by {
            lemma_at_time_first(a, t);
            lemma_at_time_first(b, t);
            assert(at_time(a, t) == at_time(b, t));
            if a[0].commit_time == t {
                assert(at_time(a_rest, t) =~= at_time(a, t).drop_first());
                assert(at_time(b_rest, t) =~= at_time(b, t).drop_first());
            } else {
                assert(at_time(a_rest, t) =~= at_time(a, t));
                assert(at_time(b_rest, t) =~= at_time(b, t));
            }
        }
        lemma_descending_stable_unique(a_rest, b_rest);
        assert(a =~= seq![a[0]] + a_rest);
        assert(b =~= seq![b[0]] + b_rest);
    }
}

/// The ranking is the only arrangement of a catalog that is descending and
/// keeps, at every commit time, the records of that time in catalog order.
pub proof fn lemma_ranked_unique(records: Seq<BranchRecord>, other: Seq<BranchRecord>)
    requires
        descending(other),
        forall|time: CommitTime| #[trigger] at_time(other, time) == at_time(records, time),
    ensures
        other == ranked(records),
{
    lemma_ranked_descending(records);
    assert forall|time: CommitTime| #[trigger] at_time(other, time) == at_time(
        ranked(records),
        time,
    ) by {
        lemma_ranked_stable(records, time);
    }
    lemma_descending_stable_unique(other, ranked(records));
}

/// Where no two branches carry the same commit time, every branch of the
/// ranking is strictly more recent than all that follow it.
pub proof fn lemma_ranked_strictly_descending(records: Seq<BranchRecord>)
    requires
        distinct_times(records),
    ensures
        strictly_descending(ranked(records)),
    decreases records.len(),
{
    if records.len() > 0 {
        let r = records[0];
        let rest = records.drop_first();
        let tail = ranked(rest);
        let k = lead(r, tail) as int;
        let out = place(r, tail);
        assert(distinct_times(rest)) by {
            assert forall|i: int, j: int| 0 <= i < j < rest.len() implies (#[trigger] rest[i]).commit_time
                != (#[trigger] rest[j]).commit_time by {
                assert(rest[i] == records[i + 1]);
                assert(rest[j] == records[j + 1]);
            }
        }
        lemma_ranked_strictly_descending(rest);
        lemma_ranked_permutation(rest);
        lemma_lead_bounds(r, tail);
        assert forall|i: int| 0 <= i < tail.len() implies (#[trigger] tail[i]).commit_time
            != r.commit_time by {
            tail.to_multiset_ensures();
            rest.to_multiset_ensures();
            assert(tail.contains(tail[i]));
            assert(tail.to_multiset().count(tail[i]) > 0);
            assert(rest.to_multiset().count(tail[i]) > 0);
            assert(rest.contains(tail[i]));
            let m = choose|m: int| 0 <= m < rest.len() && rest[m] == tail[i];
            assert(rest[m] == records[m + 1]);
        }
        assert forall|i: int, j: int| 0 <= i < j < out.len() implies (#[trigger] out[i]).commit_time.after(
            (#[trigger] out[j]).commit_time,
        ) by {
            if i < k {
                assert(out[i] == tail[i]);
            } else if i > k {
                assert(out[i] == tail[i - 1]);
            }
            if j < k {
                assert(out[j] == tail[j]);
            } else if j > k {
                assert(out[j] == tail[j - 1]);
                if i == k && j - 1 > k {
                    assert(tail[k].commit_time.after(tail[j - 1].commit_time));
                }
            }
        }
    }
}

/// A window holds as many branches as the limit allows and the catalog has,
/// they are the head of the ranking, and no branch that was left out is
/// strictly more recent than one that was kept.
pub proof fn lemma_window_most_recent(records: Seq<BranchRecord>, n: usize)
    ensures
        windowed(ranked(records), Some(n)).len() == if n <= records.len() {
            n as int
        } else {
            records.len() as int
        },
        windowed(ranked(records), Some(n)) == ranked(records).take(
            windowed(ranked(records), Some(n)).len() as int,
        ),
        forall|i: int, j: int|
            0 <= i < windowed(ranked(records), Some(n)).len() <= j < records.len() ==> !(
            #[trigger] ranked(records)[j]).commit_time.after(
                (#[trigger] windowed(ranked(records), Some(n))[i]).commit_time,
            ),
{
    lemma_ranked_len(records);
    lemma_ranked_descending(records);
    let full = ranked(records);
    assert(full.take(full.len() as int) =~= full);
}

/// Where no two branches carry the same commit time, every branch of a
/// window is strictly more recent than all that follow it.
pub proof fn lemma_window_strictly_descending(records: Seq<BranchRecord>, limit: Option<usize>)
    requires
        distinct_times(records),
    ensures
        strictly_descending(windowed(ranked(records), limit)),
{
    lemma_ranked_strictly_descending(records);
}

/// Without a limit the window is the whole ranking.
pub proof fn lemma_window_unlimited(records: Seq<BranchRecord>)
    ensures
        windowed(ranked(records), None) == ranked(records),
        windowed(ranked(records), None).len() == records.len(),
{
    lemma_ranked_len(records);
}

/// Puts `branch` into the ranking `sorted`, behind the branches that are
/// strictly more recent and in front of all the others.
fn insert_ranked(sorted: &mut Vec<BranchInfo>, branch: BranchInfo)
    ensures
        catalog(final(sorted)@) == place(branch@, catalog(old(sorted)@)),
{
    let mut k: usize = 0;
    while k < sorted.len() && sorted[k].commit_time.is_after(&branch.commit_time)
        invariant
            k <= sorted.len(),
            *sorted == *old(sorted),
            forall|j: int|
                0 <= j < k ==> (#[trigger] catalog(sorted@)[j]).commit_time.after(
                    branch@.commit_time,
                ),
        decreases sorted.len() - k,
    {
        k = k + 1;
    }
    proof {
        lemma_lead_at(branch@, catalog(sorted@), k as int);
    }
    sorted.insert(k, branch);
    assert(catalog(sorted@) =~= place(branch@, catalog(old(sorted)@)));
}

/// Ranks a catalog by recency of the tip commit, most recent first and
/// stably, and keeps the first `limit` branches where a limit is given.
pub fn rank(records: Vec<BranchInfo>, limit: Option<usize>) -> (branches: Vec<BranchInfo>)
    ensures
        catalog(branches@) == windowed(ranked(catalog(records@)), limit),
        branches@.len() == match limit {
            Some(n) if n < records@.len() => n as int,
            _ => records@.len() as int,
        },
        descending(catalog(branches@)),
{
    proof {
        lemma_ranked_len(catalog(records@));
        lemma_ranked_descending(catalog(records@));
    }
    let mut rest = records;
    let mut sorted: Vec<BranchInfo> = Vec::new();
    assert(catalog(rest@).skip(rest@.len() as int) =~= Seq::<BranchRecord>::empty());
    while rest.len() > 0
        invariant
            rest@.len() <= records@.len(),
            rest@ == records@.take(rest@.len() as int),
            catalog(sorted@) == ranked(catalog(records@).skip(rest@.len() as int)),
        decreases rest.len(),
    {
        let ghost before = rest@.len() as int;
        let branch = rest.pop().unwrap();
        proof {
            let all = catalog(records@);
            let from = all.skip(before - 1);
            assert(from[0] == branch@);
            assert(from.drop_first() =~= all.skip(before));
            assert(rest@ =~= records@.take(before - 1));
        }
        insert_ranked(&mut sorted, branch);
    }
    proof {
        assert(catalog(records@).skip(0) =~= catalog(records@));
    }
    match limit {
        Some(n) => {
            if n < sorted.len() {
                sorted.truncate(n);
                assert(catalog(sorted@) =~= ranked(catalog(records@)).take(n as int));
            }
        },
        None => {},
    }
    sorted
}

/// The ranked catalog of a session: the catalog ranked, and windowed by the
/// configured limit.
pub fn get_sorted_choices(config: &Config, choices: Vec<BranchInfo>) -> (branches: Vec<BranchInfo>)
    ensures
        catalog(branches@) == windowed(ranked(catalog(choices@)), config.limit),
        branches@.len() == match config.limit {
            Some(n) if n < choices@.len() => n as int,
            _ => choices@.len() as int,
        },
        descending(catalog(branches@)),
{
    rank(choices, config.limit)
}

} // verus!
