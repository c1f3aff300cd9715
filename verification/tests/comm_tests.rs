use unfair_painting::comm::{
    allDrawings, createDrawings, CommChannels, CommLink, CommStatus, DrawingsInput, StoredRecord,
};
use unfair_painting::game_state::GameState;
use unfair_painting::results::{check_done, submit_result};

fn record(name: &str, score: i64) -> DrawingsInput {
    DrawingsInput {
        name: name.to_string(),
        score: Some(score),
        brush: None,
        shape: None,
        drawing: None,
    }
}

fn stored(name: &str, score: i64) -> StoredRecord {
    StoredRecord {
        name: name.to_string(),
        score: Some(score),
        brush: None,
    }
}

#[test]
fn second_submit_while_in_flight_is_rejected() {
    let mut link: CommLink<DrawingsInput, StoredRecord> = CommLink::new();
    assert!(link.try_send(record("a", 1)));
    // Queued, not yet taken.
    assert!(!link.try_send(record("b", 2)));
    // Taken by the worker, still in flight.
    let taken = link.take_request().expect("a request was queued");
    assert_eq!(taken.name, "a");
    assert!(!link.try_send(record("c", 3)));
    // Response delivered, still in flight until drained.
    assert!(link.deliver(Ok(stored("a", 1))));
    assert!(!link.try_send(record("d", 4)));
    // Drained: a new submit goes through, and the first request was never
    // overwritten.
    let res = link.try_recv().expect("a response was delivered");
    assert_eq!(res.unwrap().name, "a");
    assert!(link.try_send(record("e", 5)));
}

#[test]
fn one_response_per_request() {
    let mut link: CommLink<DrawingsInput, StoredRecord> = CommLink::new();
    assert!(link.try_send(record("a", 1)));
    link.take_request().unwrap();
    assert!(link.deliver(Ok(stored("a", 1))));
    assert!(link.try_recv().is_some());
    // No second response for the one request.
    assert!(link.try_recv().is_none());
    assert!(link.try_recv().is_none());
}

#[test]
fn worker_finds_no_work_on_an_idle_link() {
    let mut link: CommLink<(), Vec<StoredRecord>> = CommLink::new();
    assert!(link.take_request().is_none());
    // An offer without a claimed request is dropped.
    assert!(!link.deliver(Ok(Vec::new())));
    assert!(link.try_recv().is_none());
}

#[test]
fn operation_kinds_are_independent() {
    let mut channels = CommChannels::new();
    assert!(channels.result.try_send(record("a", 1)));
    // A submit in flight does not block the fetch link.
    assert!(channels.all_drawings.try_send(()));
    assert!(!channels.result.try_send(record("b", 2)));
    assert!(!channels.all_drawings.try_send(()));
}

#[test]
fn reported_errors_collapse_to_the_first_message() {
    let r = createDrawings::interpret(
        Some(stored("a", 1)),
        Some(vec!["boom".to_string(), "later".to_string()]),
    );
    assert_eq!(r.unwrap_err(), "boom");
}

#[test]
fn a_clean_reply_hands_the_data_back() {
    let r = createDrawings::interpret(Some(stored("a", 7)), None);
    let rec = r.unwrap();
    assert_eq!(rec.name, "a");
    assert_eq!(rec.score, Some(7));
    // An empty error list does not count as an error.
    let r2 = allDrawings::interpret(Some(vec![stored("b", 8)]), Some(Vec::new()));
    assert_eq!(r2.unwrap().len(), 1);
}

#[test]
fn a_reply_with_nothing_in_it_is_an_error() {
    let r = createDrawings::interpret(None, None);
    assert_eq!(r.unwrap_err(), "service reply held no data");
    let r2 = allDrawings::interpret(None, Some(Vec::new()));
    assert_eq!(r2.unwrap_err(), "service reply held no data");
}

#[test]
fn submit_then_poll_drives_the_status() {
    let mut link: CommLink<DrawingsInput, StoredRecord> = CommLink::new();
    let mut status = CommStatus::Waiting;
    assert!(submit_result(&mut link, &mut status, record("alice", 7)));
    assert!(matches!(status, CommStatus::Sending));
    // A duplicate click is ignored and leaves the status alone.
    assert!(!submit_result(&mut link, &mut status, record("alice", 7)));
    assert!(matches!(status, CommStatus::Sending));
    // Nothing arrived yet.
    assert!(check_done(&mut link, &mut status).is_none());
    assert!(matches!(status, CommStatus::Sending));
    // The worker answers; the next poll moves on to the leaderboard.
    link.take_request().unwrap();
    assert!(link.deliver(Ok(stored("alice", 7))));
    assert_eq!(
        check_done(&mut link, &mut status),
        Some(GameState::LeaderBoard)
    );
    assert!(matches!(status, CommStatus::Done));
}

#[test]
fn a_failed_submission_keeps_resubmission_open() {
    let mut link: CommLink<DrawingsInput, StoredRecord> = CommLink::new();
    let mut status = CommStatus::Waiting;
    assert!(submit_result(&mut link, &mut status, record("alice", 7)));
    link.take_request().unwrap();
    assert!(link.deliver(Err("no route to service".to_string())));
    assert!(check_done(&mut link, &mut status).is_none());
    match &status {
        CommStatus::Error(e) => assert_eq!(e, "no route to service"),
        _ => panic!("expected an error status"),
    }
    // The link is free again: the player may resubmit.
    assert!(submit_result(&mut link, &mut status, record("alice", 7)));
}
