use wattstream::events::Event;
use wattstream::matcher::{match_message, MatchError, Outcome};
use wattstream::message::message_grammar;
use wattstream::record::Record;

fn start(n: &str) -> Event {
    Event::Start(n.as_bytes().to_vec())
}

fn end(n: &str) -> Event {
    Event::End(n.as_bytes().to_vec())
}

fn text(t: &str) -> Event {
    Event::Text(t.as_bytes().to_vec())
}

/// The well-formed message of the happy path:
/// `<msg><time>T</time><tmpr>X</tmpr><ch1><watts>100</watts></ch1>
///  <ch2><watts>20</watts></ch2><ch3><watts>5</watts></ch3></msg>`.
fn happy_events() -> Vec<Event> {
    vec![
        start("msg"),
        start("time"),
        text("T"),
        end("time"),
        start("tmpr"),
        text("X"),
        end("tmpr"),
        start("ch1"),
        start("watts"),
        text("100"),
        end("watts"),
        end("ch1"),
        start("ch2"),
        start("watts"),
        text("20"),
        end("watts"),
        end("ch2"),
        start("ch3"),
        start("watts"),
        text("5"),
        end("watts"),
        end("ch3"),
        end("msg"),
    ]
}

fn field(rec: &Record, key: &str) -> Option<Vec<u8>> {
    rec.get(&key.as_bytes().to_vec()).map(|v| v.clone())
}

fn assert_happy_record(rec: &Record) {
    assert_eq!(field(rec, "time"), Some(b"T".to_vec()));
    assert_eq!(field(rec, "temperature"), Some(b"X".to_vec()));
    assert_eq!(field(rec, "total"), Some(b"100".to_vec()));
    assert_eq!(field(rec, "hot_water"), Some(b"20".to_vec()));
    assert_eq!(field(rec, "solar"), Some(b"5".to_vec()));
    assert_eq!(field(rec, "watts"), None);
    assert_eq!(field(rec, "tmpr"), None);
}

#[test]
fn happy_path_record() {
    let grammar = message_grammar();
    let events = happy_events();
    match match_message(&events, &grammar) {
        Outcome::Matched(rec, consumed) => {
            assert_eq!(consumed, events.len());
            assert_happy_record(&rec);
        }
        other => panic!("expected a match, got {:?}", other),
    }
}

#[test]
fn unknown_sibling_skipped() {
    // An unknown element <foo><bar/></foo> between <tmpr> and <ch1>
    // changes nothing in the record.
    let grammar = message_grammar();
    let mut events = happy_events();
    events.splice(7..7, vec![start("foo"), start("bar"), end("bar"), end("foo")]);
    match match_message(&events, &grammar) {
        Outcome::Matched(rec, consumed) => {
            assert_eq!(consumed, events.len());
            assert_happy_record(&rec);
        }
        other => panic!("expected a match, got {:?}", other),
    }
}

#[test]
fn bare_text_out_of_sync() {
    // Bare character data where a start tag is awaited abandons the
    // message out of sync.
    let grammar = message_grammar();
    let mut events = happy_events();
    events.insert(7, text("stray"));
    match match_message(&events, &grammar) {
        Outcome::Failed(err, consumed) => {
            assert_eq!(err, MatchError::StreamOutOfSync);
            assert_eq!(consumed, 8);
        }
        other => panic!("expected an out-of-sync failure, got {:?}", other),
    }
}

#[test]
fn empty_channel_fails() {
    // <ch1></ch1> with no <watts> leaf: the channel's closing tag
    // stands where a start tag is awaited.
    let grammar = message_grammar();
    let events = vec![
        start("msg"),
        start("time"),
        text("T"),
        end("time"),
        start("tmpr"),
        text("X"),
        end("tmpr"),
        start("ch1"),
        end("ch1"),
    ];
    match match_message(&events, &grammar) {
        Outcome::Failed(err, _) => assert_eq!(err, MatchError::StreamOutOfSync),
        other => panic!("expected a failure, got {:?}", other),
    }
}

#[test]
fn leaf_without_text_is_missing_content() {
    // <ch1><watts></watts></ch1>: the leaf holds no character data.
    let grammar = message_grammar();
    let events = vec![
        start("msg"),
        start("time"),
        text("T"),
        end("time"),
        start("tmpr"),
        text("X"),
        end("tmpr"),
        start("ch1"),
        start("watts"),
        end("watts"),
    ];
    match match_message(&events, &grammar) {
        Outcome::Failed(err, _) => assert_eq!(err, MatchError::MissingContent),
        other => panic!("expected a failure, got {:?}", other),
    }
}

#[test]
fn noise_is_transparent() {
    // Ignorable events sprinkled anywhere between significant events
    // leave the record untouched.
    let grammar = message_grammar();
    let mut events = vec![Event::DocumentStart, Event::ProcessingInstruction];
    for (i, e) in happy_events().into_iter().enumerate() {
        events.push(e);
        if i % 2 == 0 {
            events.push(Event::Whitespace);
        }
        if i % 5 == 0 {
            events.push(Event::Comment);
            events.push(Event::RawBlock);
        }
    }
    match match_message(&events, &grammar) {
        Outcome::Matched(rec, _) => assert_happy_record(&rec),
        other => panic!("expected a match, got {:?}", other),
    }
}

#[test]
fn duplicated_noise_is_transparent() {
    // Duplicating the noise between two runs changes nothing either.
    let grammar = message_grammar();
    let mut events = Vec::new();
    for e in happy_events() {
        events.push(Event::Comment);
        events.push(Event::Comment);
        events.push(e);
    }
    match match_message(&events, &grammar) {
        Outcome::Matched(rec, _) => assert_happy_record(&rec),
        other => panic!("expected a match, got {:?}", other),
    }
}

#[test]
fn truncated_prefix_needs_more() {
    let grammar = message_grammar();
    let mut events = happy_events();
    events.truncate(10);
    match match_message(&events, &grammar) {
        Outcome::NeedMore => {}
        other => panic!("expected a request for more events, got {:?}", other),
    }
}

#[test]
fn only_noise_needs_more() {
    let grammar = message_grammar();
    let events = vec![Event::DocumentStart, Event::Whitespace, Event::Comment];
    match match_message(&events, &grammar) {
        Outcome::NeedMore => {}
        other => panic!("expected a request for more events, got {:?}", other),
    }
}

#[test]
fn wrong_top_level_is_drained_then_recovers() {
    // A wrong top-level element is drained wholesale before failing,
    // so the next attempt starts at a clean boundary.
    let grammar = message_grammar();
    let mut events = vec![start("status"), start("inner"), end("inner"), end("status")];
    let wrong_len = events.len();
    events.extend(happy_events());
    let consumed = match match_message(&events, &grammar) {
        Outcome::Failed(err, consumed) => {
            assert_eq!(err, MatchError::UnexpectedEvent);
            assert_eq!(consumed, wrong_len);
            consumed
        }
        other => panic!("expected a failure, got {:?}", other),
    };
    let rest: Vec<Event> = events.split_off(consumed);
    match match_message(&rest, &grammar) {
        Outcome::Matched(rec, _) => assert_happy_record(&rec),
        other => panic!("expected a match on the next message, got {:?}", other),
    }
}

#[test]
fn wrong_top_level_junk_event() {
    let grammar = message_grammar();
    let events = vec![text("garbage"), start("msg")];
    match match_message(&events, &grammar) {
        Outcome::Failed(err, consumed) => {
            assert_eq!(err, MatchError::UnexpectedEvent);
            assert_eq!(consumed, 1);
        }
        other => panic!("expected a failure, got {:?}", other),
    }
}

#[test]
fn same_named_nesting_ends_skip_early() {
    // The skip-to-close primitive matches the closing tag by name
    // alone, with no depth counter: a same-named nested element ends
    // the skip early and the leftover closing tag throws the
    // sequence out of sync.  The name-only policy is deliberate and
    // documented on the skip-to-close primitive.
    let grammar = message_grammar();
    let mut events = happy_events();
    events.splice(
        7..7,
        vec![start("foo"), start("foo"), end("foo"), end("foo")],
    );
    match match_message(&events, &grammar) {
        Outcome::Failed(err, _) => assert_eq!(err, MatchError::StreamOutOfSync),
        other => panic!("expected an out-of-sync failure, got {:?}", other),
    }
}
