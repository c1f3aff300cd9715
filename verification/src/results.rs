use crate::b64::{b64_encode, b64_of};
use crate::canvas::Canvas;
use crate::comm::{CommLink, CommStatus, DrawingsInput, StoredRecord};
use crate::game_state::GameState;
use crate::scoring::Score;
use vstd::prelude::*;

verus! {

/// Assemble the wire record of the results phase: the player's name, the
/// final score, and the once-rendered brush thumbnail, base64-encoded.
pub fn build_record(name: String, score: &Score, thumbnail: &Canvas) -> (rec: DrawingsInput)
    ensures
        rec.name == name,
        rec.score == Some(score.0),
        rec.brush matches Some(b) && b@ == b64_of(thumbnail.data@),
        rec.shape is None,
        rec.drawing is None,
{
    let brush = b64_encode(&thumbnail.data);
    DrawingsInput { name, score: Some(score.0), brush: Some(brush), shape: None, drawing: None }
}

/// The send-result click of the results phase: hand the record to the
/// submit link and note the sending state. A click while a submission is
/// already in flight is ignored rather than aborting, and changes nothing.
pub fn submit_result(
    link: &mut CommLink<DrawingsInput, StoredRecord>,
    status: &mut CommStatus,
    rec: DrawingsInput,
) -> (accepted: bool)
    requires
        old(link).wf(),
    ensures
        final(link).wf(),
        accepted == old(link).submit_accepted(),
        *final(link) == old(link).submit_next(rec),
        accepted ==> *final(status) == CommStatus::Sending,
        !accepted ==> *final(status) == *old(status),
{
    let accepted = link.try_send(rec);
    if accepted {
        *status = CommStatus::Sending;
    }
    accepted
}

/// The per-frame poll of the results phase: when the response to the
/// submission has arrived, a success moves on to the leaderboard, and a
/// failure keeps its message on display and leaves resubmission open.
pub fn check_done(link: &mut CommLink<DrawingsInput, StoredRecord>, status: &mut CommStatus) -> (next:
    Option<GameState>)
    requires
        old(link).wf(),
    ensures
        final(link).wf(),
        *final(link) == old(link).poll_next().0,
        ({
            let res = old(link).poll_next().1;
            &&& res is None ==> *final(status) == *old(status) && next is None
            &&& res matches Some(Ok(rec)) ==> *final(status) == CommStatus::Done && next == Some(
                GameState::LeaderBoard,
            )
            &&& res matches Some(Err(e)) ==> *final(status) == CommStatus::Error(e) && next
                is None
        }),
{
    match link.try_recv() {
        None => None,
        Some(Ok(_stored)) => {
            *status = CommStatus::Done;
            Some(GameState::LeaderBoard)
        },
        Some(Err(e)) => {
            *status = CommStatus::Error(e);
            None
        },
    }
}

} // verus!
