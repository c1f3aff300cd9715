use crate::b64::{b64_decode, b64_of};
use crate::comm::{CommLink, StoredRecord};
use vstd::prelude::*;
use vstd::seq_lib::{group_to_multiset_ensures, to_multiset_build, to_multiset_contains, to_multiset_len, to_multiset_remove};

verus! {

/// The rank key of a stored record: its score, with an absent score ranking
/// below every present one, so that a record without a score cannot crash
/// the view and simply comes last.
pub open spec fn score_key(r: StoredRecord) -> int {
    match r.score {
        Some(s) => s as int,
        None => i64::MIN - 1,
    }
}

/// Records ordered for display: scores descending.
pub open spec fn sorted_desc(s: Seq<StoredRecord>) -> bool {
    forall|i: int, j: int| 0 <= i < j < s.len() ==> score_key(s[i]) >= score_key(s[j])
}

/// `a` ranks no higher than `b`.
fn le_key(a: &StoredRecord, b: &StoredRecord) -> (r: bool)
    ensures
        r == (score_key(*a) <= score_key(*b)),
{
    match (&a.score, &b.score) {
        (Option::None, _) => true,
        (Option::Some(_), Option::None) => false,
        (Option::Some(x), Option::Some(y)) => *x <= *y,
    }
}

/// Sort the fetched records for display: scores descending, equal scores in
/// fetch order, records without a score last. The sorted list holds exactly
/// the fetched records.
pub fn sort_drawings(records: &mut Vec<StoredRecord>)
    ensures
        sorted_desc(final(records)@),
        final(records)@.to_multiset() == old(records)@.to_multiset(),
{
    broadcast use group_to_multiset_ensures;
    broadcast use vstd::multiset::group_multiset_axioms;

    let mut out: Vec<StoredRecord> = Vec::new();
    while records.len() > 0
        invariant
            sorted_desc(out@),
            forall|i: int, j: int|
                0 <= i < out@.len() && 0 <= j < records@.len() ==> score_key(out@[i]) >= score_key(
                    records@[j],
                ),
            out@.to_multiset().add(records@.to_multiset()) == old(records)@.to_multiset(),
        decreases records@.len(),
    {
        let mut m: usize = 0;
        let mut j: usize = 1;
        while j < records.len()
            invariant
                records@.len() > 0,
                m < j <= records@.len(),
                forall|k: int| 0 <= k < j ==> score_key(records@[k]) <= score_key(records@[m as int]),
            decreases records@.len() - j,
        {
            if !le_key(&records[j], &records[m]) {
                m = j;
            }
            j = j + 1;
        }
        let ghost before = records@;
        let ghost out_before = out@;
        let x = records.remove(m);
        out.push(x);
        proof {
            assert(before.contains(x)) by {
                assert(before[m as int] == x);
            }
            to_multiset_contains(before, x);
            assert(before.to_multiset().count(x) > 0);
            to_multiset_remove(before, m as int);
            assert(records@.to_multiset() =~= before.to_multiset().remove(x));
            to_multiset_build(out_before, x);
            assert(out@.to_multiset() =~= out_before.to_multiset().insert(x));
            assert(out@.to_multiset().add(records@.to_multiset()) =~= out_before.to_multiset().add(
                before.to_multiset(),
            ));
        }
    }
    proof {
        assert forall|e: StoredRecord|
            out@.to_multiset().add(records@.to_multiset()).count(e) == out@.to_multiset().count(
                e,
            ) by {
            to_multiset_contains(records@, e);
            if records@.to_multiset().count(e) > 0 {
                assert(records@.contains(e));
            }
        }
        assert(out@.to_multiset().add(records@.to_multiset()) =~= out@.to_multiset());
    }
    *records = out;
}

/// Decode one record's brush thumbnail for display. An absent blob yields
/// nothing, and so does one that does not decode: a bad record must not
/// bring the leaderboard view down.
pub fn decode_brush(brush: &Option<String>) -> (r: Option<Vec<u8>>)
    ensures
        brush is None ==> r is None,
        forall|bs: Seq<u8>|
            (brush matches Some(s) && s@ == #[trigger] b64_of(bs)) ==> (r matches Some(v) && v@
                == bs),
{
    match brush {
        Option::None => Option::None,
        Option::Some(s) => b64_decode(s.as_str()),
    }
}

/// Entering the leaderboard phase asks the fetch link for the full record
/// list. A fetch already in flight is left alone rather than aborting.
pub fn start_poll_leaderboard(link: &mut CommLink<(), Vec<StoredRecord>>) -> (accepted: bool)
    requires
        old(link).wf(),
    ensures
        final(link).wf(),
        accepted == old(link).submit_accepted(),
        *final(link) == old(link).submit_next(()),
{
    link.try_send(())
}

/// One rendered leaderboard entry: its 1-based rank, the record, and the
/// decoded brush thumbnail when one came along.
#[derive(Debug)]
pub struct LeaderboardRow {
    pub rank: usize,
    pub record: StoredRecord,
    pub image: Option<Vec<u8>>,
}

/// Build the display rows from a fetched record list: sort the scores
/// descending, assign 1-based ranks in order, and decode each brush blob.
pub fn leaderboard_rows(records: Vec<StoredRecord>) -> (rows: Vec<LeaderboardRow>)
    ensures
        rows@.len() == records@.len(),
        sorted_desc(rows@.map_values(|row: LeaderboardRow| row.record)),
        rows@.map_values(|row: LeaderboardRow| row.record).to_multiset() == records@.to_multiset(),
        forall|i: int| 0 <= i < rows@.len() ==> (#[trigger] rows@[i]).rank == i + 1,
        forall|i: int|
            0 <= i < rows@.len() ==> ((#[trigger] rows@[i]).record.brush is None ==> rows@[i].image
                is None),
        forall|i: int, bs: Seq<u8>|
            #![trigger rows@[i], b64_of(bs)]
            0 <= i < rows@.len() && (rows@[i].record.brush matches Some(s) && s@ == b64_of(bs))
                ==> (rows@[i].image matches Some(v) && v@ == bs),
{
    let mut recs = records;
    sort_drawings(&mut recs);
    let ghost sorted = recs@;
    proof {
        to_multiset_len(sorted);
        to_multiset_len(records@);
    }
    let total: usize = recs.len();
    let mut rows: Vec<LeaderboardRow> = Vec::new();
    while recs.len() > 0
        invariant
            rows@.len() + recs@.len() == total,
            recs@ == sorted.subrange(rows@.len() as int, sorted.len() as int),
            sorted.len() == total,
            total <= usize::MAX,
            forall|i: int|
                0 <= i < rows@.len() ==> (#[trigger] rows@[i]).record == sorted[i] && rows@[i].rank
                    == i + 1,
            forall|i: int|
                0 <= i < rows@.len() ==> ((#[trigger] rows@[i]).record.brush is None
                    ==> rows@[i].image is None),
            forall|i: int, bs: Seq<u8>|
                #![trigger rows@[i], b64_of(bs)]
                0 <= i < rows@.len() && (rows@[i].record.brush matches Some(s) && s@ == b64_of(bs))
                    ==> (rows@[i].image matches Some(v) && v@ == bs),
        decreases recs@.len(),
    {
        let ghost recs_before = recs@;
        let ghost rows_prev = rows@;
        let ghost rows_len = rows@.len() as int;
        let rec = recs.remove(0);
        let image = decode_brush(&rec.brush);
        let rank = rows.len() + 1;
        rows.push(LeaderboardRow { rank, record: rec, image });
        proof {
            assert(recs_before[0] == sorted[rows_len]);
            assert(recs@ =~= sorted.subrange(rows_len + 1, sorted.len() as int));
            assert forall|i: int|
                0 <= i < rows@.len() implies (#[trigger] rows@[i]).record == sorted[i]
                && rows@[i].rank == i + 1 by {
                if i < rows_len {
                    assert(rows@[i] == rows_prev[i]);
                }
            }
            assert forall|i: int|
                0 <= i < rows@.len() implies ((#[trigger] rows@[i]).record.brush is None
                ==> rows@[i].image is None) by {
                if i < rows_len {
                    assert(rows@[i] == rows_prev[i]);
                }
            }
            assert forall|i: int, bs: Seq<u8>|
                #![trigger rows@[i], b64_of(bs)]
                0 <= i < rows@.len() && (rows@[i].record.brush matches Some(s) && s@ == b64_of(
                bs,
            )) implies (rows@[i].image matches Some(v) && v@ == bs) by {
                if i < rows_len {
                    assert(rows@[i] == rows_prev[i]);
                }
            }
        }
    }
    proof {
        let m = rows@.map_values(|row: LeaderboardRow| row.record);
        assert(m =~= sorted);
    }
    rows
}

/// The per-frame poll of the leaderboard phase: when the fetched record list
/// has arrived, turn it into display rows; a fetch failure hands its message
/// through and leaves the view empty rather than crashing.
pub fn check_poll_leaderboard(link: &mut CommLink<(), Vec<StoredRecord>>) -> (r: Option<
    Result<Vec<LeaderboardRow>, String>,
>)
    requires
        old(link).wf(),
    ensures
        final(link).wf(),
        *final(link) == old(link).poll_next().0,
        ({
            let res = old(link).poll_next().1;
            &&& res is None ==> r is None
            &&& res matches Some(Err(e)) ==> r == Some(Result::<Vec<LeaderboardRow>, String>::Err(e))
            &&& res matches Some(Ok(recs)) ==> (r matches Some(Ok(rows)) && rows@.len()
                == recs@.len() && sorted_desc(rows@.map_values(|row: LeaderboardRow| row.record))
                && rows@.map_values(|row: LeaderboardRow| row.record).to_multiset()
                == recs@.to_multiset() && (forall|i: int|
                0 <= i < rows@.len() ==> (#[trigger] rows@[i]).rank == i + 1))
        }),
{
    match link.try_recv() {
        Option::None => Option::None,
        Option::Some(Err(e)) => Option::Some(Err(e)),
        Option::Some(Ok(records)) => Option::Some(Ok(leaderboard_rows(records))),
    }
}

} // verus!
