use unfair_painting::comm::StoredRecord;
use unfair_painting::leaderboard::{check_poll_leaderboard, leaderboard_rows, sort_drawings, start_poll_leaderboard};
use unfair_painting::comm::CommLink;

fn rec(name: &str, score: Option<i64>) -> StoredRecord {
    StoredRecord {
        name: name.to_string(),
        score,
        brush: None,
    }
}

#[test]
fn three_records_render_descending_with_ranks() {
    // Fetched scores [40, 90, 65] render as [90, 65, 40], ranks [1, 2, 3].
    let fetched = vec![
        rec("a", Some(400)),
        rec("b", Some(900)),
        rec("c", Some(650)),
    ];
    let rows = leaderboard_rows(fetched);
    assert_eq!(rows.len(), 3);
    let scores: Vec<Option<i64>> = rows.iter().map(|r| r.record.score).collect();
    assert_eq!(scores, vec![Some(900), Some(650), Some(400)]);
    let ranks: Vec<usize> = rows.iter().map(|r| r.rank).collect();
    assert_eq!(ranks, vec![1, 2, 3]);
    let names: Vec<&str> = rows.iter().map(|r| r.record.name.as_str()).collect();
    assert_eq!(names, vec!["b", "c", "a"]);
}

#[test]
fn sorting_keeps_every_record() {
    let mut records = vec![
        rec("a", Some(10)),
        rec("b", Some(30)),
        rec("c", Some(20)),
        rec("d", Some(30)),
    ];
    sort_drawings(&mut records);
    assert_eq!(records.len(), 4);
    let scores: Vec<Option<i64>> = records.iter().map(|r| r.score).collect();
    assert_eq!(scores, vec![Some(30), Some(30), Some(20), Some(10)]);
    // Equal scores keep their fetch order.
    assert_eq!(records[0].name, "b");
    assert_eq!(records[1].name, "d");
}

#[test]
fn records_without_a_score_come_last() {
    let mut records = vec![rec("a", None), rec("b", Some(-50)), rec("c", Some(5))];
    sort_drawings(&mut records);
    let names: Vec<&str> = records.iter().map(|r| r.name.as_str()).collect();
    assert_eq!(names, vec!["c", "b", "a"]);
}

#[test]
fn an_empty_fetch_renders_no_rows() {
    let rows = leaderboard_rows(Vec::new());
    assert!(rows.is_empty());
}

#[test]
fn entering_the_phase_asks_once() {
    let mut link: CommLink<(), Vec<StoredRecord>> = CommLink::new();
    assert!(start_poll_leaderboard(&mut link));
    // The request sits unanswered: entering again must not ask twice.
    assert!(!start_poll_leaderboard(&mut link));
}

#[test]
fn polling_turns_a_fetched_list_into_rows() {
    let mut link: CommLink<(), Vec<StoredRecord>> = CommLink::new();
    assert!(start_poll_leaderboard(&mut link));
    // Nothing has arrived yet.
    assert!(check_poll_leaderboard(&mut link).is_none());
    // The worker answers with two records.
    link.take_request().unwrap();
    assert!(link.deliver(Ok(vec![rec("low", Some(100)), rec("high", Some(300))])));
    let rows = check_poll_leaderboard(&mut link)
        .expect("the list arrived")
        .expect("the fetch succeeded");
    assert_eq!(rows.len(), 2);
    assert_eq!(rows[0].record.name, "high");
    assert_eq!(rows[1].record.name, "low");
    assert_eq!((rows[0].rank, rows[1].rank), (1, 2));
}

#[test]
fn a_failed_fetch_hands_its_message_through() {
    let mut link: CommLink<(), Vec<StoredRecord>> = CommLink::new();
    assert!(start_poll_leaderboard(&mut link));
    link.take_request().unwrap();
    assert!(link.deliver(Err("service unreachable".to_string())));
    let res = check_poll_leaderboard(&mut link).expect("the answer arrived");
    assert_eq!(res.unwrap_err(), "service unreachable");
}
