use wattstream::events::Event;
use wattstream::matcher::{match_message, MatchError, Outcome};
use wattstream::message::message_grammar;
use wattstream::record::Record;
use wattstream::session::{
    extract_readings, parse_watts, session_step, Readings, SessionFault, SessionStep,
};

fn start(n: &str) -> Event {
    Event::Start(n.as_bytes().to_vec())
}

fn end(n: &str) -> Event {
    Event::End(n.as_bytes().to_vec())
}

fn text(t: &str) -> Event {
    Event::Text(t.as_bytes().to_vec())
}

fn message_with_totals(total: &str, hot_water: &str, solar: &str) -> Vec<Event> {
    vec![
        start("msg"),
        start("time"),
        text("T"),
        end("time"),
        start("tmpr"),
        text("X"),
        end("tmpr"),
        start("ch1"),
        start("watts"),
        text(total),
        end("watts"),
        end("ch1"),
        start("ch2"),
        start("watts"),
        text(hot_water),
        end("watts"),
        end("ch2"),
        start("ch3"),
        start("watts"),
        text(solar),
        end("watts"),
        end("ch3"),
        end("msg"),
    ]
}

#[test]
fn parse_watts_reads_decimals() {
    assert_eq!(parse_watts(&b"0".to_vec()), Some(0));
    assert_eq!(parse_watts(&b"100".to_vec()), Some(100));
    assert_eq!(parse_watts(&b"007".to_vec()), Some(7));
    assert_eq!(parse_watts(&b"18446744073709551615".to_vec()), Some(u64::MAX));
}

#[test]
fn parse_watts_rejects_junk() {
    assert_eq!(parse_watts(&b"".to_vec()), None);
    assert_eq!(parse_watts(&b"12a".to_vec()), None);
    assert_eq!(parse_watts(&b"-5".to_vec()), None);
    assert_eq!(parse_watts(&b"+5".to_vec()), None);
    assert_eq!(parse_watts(&b" 5".to_vec()), None);
    // One past the largest value that fits.
    assert_eq!(parse_watts(&b"18446744073709551616".to_vec()), None);
}

#[test]
fn happy_path_publishes_readings() {
    let grammar = message_grammar();
    let events = message_with_totals("100", "20", "5");
    let n = events.len();
    let out = match_message(&events, &grammar);
    match session_step(out) {
        SessionStep::Publish { readings, consumed } => {
            assert_eq!(
                readings,
                Readings { total: 100, hot_water: 20, solar: 5 }
            );
            assert_eq!(consumed, n);
        }
        other => panic!("expected a publish step, got {:?}", other),
    }
}

#[test]
fn parse_failure_skips_message() {
    // A failed message is skipped over the same transport; ingestion
    // carries on with the next message.
    let grammar = message_grammar();
    let mut events = message_with_totals("100", "20", "5");
    events.insert(7, text("stray"));
    let out = match_message(&events, &grammar);
    match session_step(out) {
        SessionStep::Skip { err, consumed } => {
            assert_eq!(err, MatchError::StreamOutOfSync);
            assert_eq!(consumed, 8);
        }
        other => panic!("expected a skip step, got {:?}", other),
    }
}

#[test]
fn numeric_fault_restarts_session() {
    // A matched message with a corrupt reading escalates to a full
    // session restart.
    let grammar = message_grammar();
    let events = message_with_totals("100", "twenty", "5");
    let n = events.len();
    let out = match_message(&events, &grammar);
    match session_step(out) {
        SessionStep::Restart { fault, consumed } => {
            assert_eq!(fault, SessionFault::BadNumber);
            assert_eq!(consumed, n);
        }
        other => panic!("expected a restart step, got {:?}", other),
    }
}

#[test]
fn overflowing_reading_restarts_session() {
    let grammar = message_grammar();
    let events = message_with_totals("100", "18446744073709551616", "5");
    let out = match_message(&events, &grammar);
    match session_step(out) {
        SessionStep::Restart { fault, .. } => assert_eq!(fault, SessionFault::BadNumber),
        other => panic!("expected a restart step, got {:?}", other),
    }
}

#[test]
fn missing_channel_field_is_reported() {
    // A matched message always carries all channel keys; only a
    // hand-built record can lack one.
    let mut rec = Record::new();
    rec.insert(b"total".to_vec(), b"100".to_vec());
    rec.insert(b"solar".to_vec(), b"5".to_vec());
    assert_eq!(extract_readings(&rec), Err(SessionFault::MissingField));
}

#[test]
fn extracts_from_full_record() {
    let mut rec = Record::new();
    rec.insert(b"total".to_vec(), b"1".to_vec());
    rec.insert(b"hot_water".to_vec(), b"2".to_vec());
    rec.insert(b"solar".to_vec(), b"3".to_vec());
    // A later insert for the same key overwrites the earlier one.
    rec.insert(b"total".to_vec(), b"4".to_vec());
    assert_eq!(
        extract_readings(&rec),
        Ok(Readings { total: 4, hot_water: 2, solar: 3 })
    );
}

#[test]
fn truncated_message_reads_more() {
    let grammar = message_grammar();
    let mut events = message_with_totals("100", "20", "5");
    events.truncate(4);
    let out = match_message(&events, &grammar);
    match session_step(out) {
        SessionStep::ReadMore => {}
        other => panic!("expected a read-more step, got {:?}", other),
    }
}
