use unfair_painting::brush::generate_brush;
use unfair_painting::comm::{CommLink, CommStatus, DrawingsInput, StoredRecord};
use unfair_painting::leaderboard::decode_brush;
use unfair_painting::painting::render_thumbnail;
use unfair_painting::results::{build_record, check_done, submit_result};
use unfair_painting::scoring::Score;

#[test]
fn record_carries_name_score_and_thumbnail() {
    let brush = generate_brush();
    let thumbnail = render_thumbnail(&brush);
    let rec = build_record("alice".to_string(), &Score(735), &thumbnail);
    assert_eq!(rec.name, "alice");
    assert_eq!(rec.score, Some(735));
    assert!(rec.brush.is_some());
    assert!(rec.shape.is_none());
    assert!(rec.drawing.is_none());
}

#[test]
fn record_round_trips_through_an_echoing_service() {
    // Build a record from the name "alice", a score of 73.5 points, and a
    // freshly generated thumbnail; submit it; let a fake service echo it
    // back; the echo decodes to the same name, score and thumbnail bytes.
    let brush = generate_brush();
    let thumbnail = render_thumbnail(&brush);
    let rec = build_record("alice".to_string(), &Score(735), &thumbnail);

    let mut link: CommLink<DrawingsInput, StoredRecord> = CommLink::new();
    let mut status = CommStatus::Waiting;
    assert!(submit_result(&mut link, &mut status, rec));

    // The fake service: take the request and echo its fields back.
    let sent = link.take_request().expect("the submission was queued");
    let echoed = StoredRecord {
        name: sent.name.clone(),
        score: sent.score,
        brush: sent.brush.clone(),
    };
    assert!(link.deliver(Ok(echoed)));

    // Drain the response as the results phase would.
    let got = link.try_recv().expect("the echo arrived").unwrap();
    assert!(check_done(&mut link, &mut status).is_none());
    assert_eq!(got.name, "alice");
    assert_eq!(got.score, Some(735));
    let bytes = decode_brush(&got.brush).expect("the echoed thumbnail decodes");
    assert_eq!(bytes, thumbnail.data);
}

#[test]
fn encoding_really_transforms_the_bytes() {
    // The base64 text differs from the raw bytes it encodes.
    let brush = generate_brush();
    let thumbnail = render_thumbnail(&brush);
    let rec = build_record("bob".to_string(), &Score(0), &thumbnail);
    let text = rec.brush.unwrap();
    assert_ne!(text.as_bytes(), &thumbnail.data[..]);
    assert!(text.is_ascii());
}

#[test]
fn an_undecodable_brush_yields_nothing() {
    assert_eq!(decode_brush(&Some("%%% not base64 %%%".to_string())), None);
    assert_eq!(decode_brush(&None), None);
}
