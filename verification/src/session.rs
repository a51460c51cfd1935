//! Numeric extraction and the session policy.
//!
//! After a message matches, the three channel captures are parsed as
//! decimal watt readings and handed to the downstream sink.  The
//! session policy maps every matcher outcome to what the surrounding
//! loop must do next: keep reading, skip a bad message and carry on
//! over the same transport, publish readings, or restart the whole
//! session.  The loop itself, the transport and the sink live
//! outside the library; the policy here is deliberately
//! retry-forever, a documented choice for an unattended collector on
//! a local serial device.

use vstd::prelude::*;
use crate::events::Event;
use crate::grammar::{Grammar, leaf_keys};
use crate::matcher::{MatchError, Outcome, SpecOutcome, s_match, lemma_run_keys};
use crate::message::{
    is_message_grammar, key_total, key_hot_water, key_solar, name_time, key_temperature,
    bytes_total, bytes_hot_water, bytes_solar,
};
use crate::record::Record;

verus! {

/// A decimal digit byte.
pub open spec fn is_digit(b: u8) -> bool {
    48 <= b <= 57
}

/// The bytes spell a plain decimal number: nonempty, digits only.
pub open spec fn is_number(s: Seq<u8>) -> bool {
    s.len() > 0 && forall|i: int| 0 <= i < s.len() ==> is_digit(s[i])
}

/// The value of a digit string read as a decimal number.
pub open spec fn digits_val(s: Seq<u8>) -> int
    decreases s.len(),
{
    if s.len() == 0 {
        0
    } else {
        digits_val(s.drop_last()) * 10 + (s.last() - 48)
    }
}

/// A digit string's value is nonnegative and only grows as digits
/// are appended.
proof fn lemma_digits_val_grows(s: Seq<u8>, j: int)
    requires
        0 <= j <= s.len(),
        forall|i: int| 0 <= i < s.len() ==> is_digit(s[i]),
    ensures
        0 <= digits_val(s.take(j)) <= digits_val(s),
    decreases s.len() - j,
{
    if j == s.len() {
        assert(s.take(j) =~= s);
        lemma_digits_val_nonneg(s);
    } else {
        lemma_digits_val_grows(s, j + 1);
        assert(s.take(j + 1).drop_last() =~= s.take(j));
        assert(s.take(j + 1).last() == s[j]);
        lemma_digits_val_nonneg(s.take(j));
    }
}

/// A digit string's value is nonnegative.
proof fn lemma_digits_val_nonneg(s: Seq<u8>)
    requires
        forall|i: int| 0 <= i < s.len() ==> is_digit(s[i]),
    ensures
        digits_val(s) >= 0,
    decreases s.len(),
{
    if s.len() > 0 {
        lemma_digits_val_nonneg(s.drop_last());
    }
}

/// Parse captured text as a decimal watt reading.  Succeeds exactly
/// on nonempty all-digit strings whose value fits; no sign, no
/// fraction, no surrounding space.
pub fn parse_watts(s: &Vec<u8>) -> (r: Option<u64>)
    ensures
        match r {
            Some(v) => is_number(s@) && digits_val(s@) <= u64::MAX && v == digits_val(s@),
            None => !is_number(s@) || digits_val(s@) > u64::MAX,
        },
{
    if s.len() == 0 {
        return None;
    }
    let mut acc: u64 = 0;
    let mut i: usize = 0;
    proof {
        assert(s@.take(0) =~= Seq::<u8>::empty());
    }
    while i < s.len()
        invariant
            i <= s@.len(),
            s@.len() > 0,
            forall|k: int| 0 <= k < i ==> is_digit(s@[k]),
            acc == digits_val(s@.take(i as int)),
        decreases s@.len() - i,
    {
        let b = s[i];
        if b < 48 || b > 57 {
            return None;
        }
        let d: u64 = (b - 48) as u64;
        proof {
            assert(s@.take(i + 1).drop_last() =~= s@.take(i as int));
            assert(s@.take(i + 1).last() == s@[i as int]);
        }
        if acc > (u64::MAX - d) / 10 {
            proof {
                assert(acc * 10 + d > u64::MAX) by (nonlinear_arith)
                    requires
                        acc > (u64::MAX - d) / 10,
                        d <= 9,
                        (u64::MAX - d) / 10 * 10 + 9 >= u64::MAX - d,
                {}
                assert(digits_val(s@.take(i + 1)) > u64::MAX);
                if is_number(s@) {
                    lemma_digits_val_grows(s@, i + 1);
                }
            }
            return None;
        }
        proof {
            assert(acc * 10 + d <= u64::MAX) by (nonlinear_arith)
                requires
                    acc <= (u64::MAX - d) / 10,
                    d <= 9,
                    (u64::MAX - d) / 10 * 10 <= u64::MAX - d,
            {}
        }
        acc = acc * 10 + d;
        i = i + 1;
    }
    proof {
        assert(s@.take(s@.len() as int) =~= s@);
    }
    Some(acc)
}

/// The three numeric channel readings of one message, in watts.
#[derive(Debug, Clone, Copy, PartialEq, Eq, Structural)]
pub struct Readings {
    pub total: u64,
    pub hot_water: u64,
    pub solar: u64,
}

/// Why a structurally matched message could not be turned into
/// readings.
#[derive(Debug, Clone, Copy, PartialEq, Eq)]
pub enum SessionFault {
    /// A channel field key is missing from the record.
    MissingField,
    /// A captured channel text is not a number that fits.
    BadNumber,
}

/// One channel capture is a parsable reading.
pub open spec fn field_ok(m: Map<Seq<u8>, Seq<u8>>, k: Seq<u8>) -> bool {
    m.contains_key(k) && is_number(m[k]) && digits_val(m[k]) <= u64::MAX
}

/// Turn a matched record into the three watt readings.  Fails with
/// `MissingField` when a channel key is absent, and with `BadNumber`
/// when a captured text does not parse; a numeric fault marks the
/// message as structurally valid but semantically corrupt.
pub fn extract_readings(rec: &Record) -> (r: Result<Readings, SessionFault>)
    ensures
        match r {
            Ok(v) => {
                &&& field_ok(rec@, key_total())
                &&& field_ok(rec@, key_hot_water())
                &&& field_ok(rec@, key_solar())
                &&& v.total == digits_val(rec@[key_total()])
                &&& v.hot_water == digits_val(rec@[key_hot_water()])
                &&& v.solar == digits_val(rec@[key_solar()])
            },
            Err(SessionFault::MissingField) => !rec@.contains_key(key_total())
                || !rec@.contains_key(key_hot_water()) || !rec@.contains_key(key_solar()),
            Err(SessionFault::BadNumber) => {
                &&& rec@.contains_key(key_total())
                &&& rec@.contains_key(key_hot_water())
                &&& rec@.contains_key(key_solar())
                &&& (!field_ok(rec@, key_total()) || !field_ok(rec@, key_hot_water())
                    || !field_ok(rec@, key_solar()))
            },
        },
{
    let kt = bytes_total();
    let kh = bytes_hot_water();
    let ks = bytes_solar();
    let vt = match rec.get(&kt) {
        Some(v) => v,
        None => {
            return Err(SessionFault::MissingField);
        },
    };
    let vh = match rec.get(&kh) {
        Some(v) => v,
        None => {
            return Err(SessionFault::MissingField);
        },
    };
    let vs = match rec.get(&ks) {
        Some(v) => v,
        None => {
            return Err(SessionFault::MissingField);
        },
    };
    let total = match parse_watts(vt) {
        Some(n) => n,
        None => {
            return Err(SessionFault::BadNumber);
        },
    };
    let hot_water = match parse_watts(vh) {
        Some(n) => n,
        None => {
            return Err(SessionFault::BadNumber);
        },
    };
    let solar = match parse_watts(vs) {
        Some(n) => n,
        None => {
            return Err(SessionFault::BadNumber);
        },
    };
    Ok(Readings { total, hot_water, solar })
}

/// What the session loop must do next, given one matcher verdict.
#[derive(Debug)]
pub enum SessionStep {
    /// The prefix ends before the message does: read another event.
    ReadMore,
    /// One message failed to parse: report it, drop the consumed
    /// prefix, and carry on over the same transport.  A single bad
    /// or replayed message never stops ingestion.
    Skip { err: MatchError, consumed: usize },
    /// A message matched and its readings parsed: drop the consumed
    /// prefix and forward the readings to the sink.  A sink failure
    /// is reported and ingestion carries on.
    Publish { readings: Readings, consumed: usize },
    /// A matched message held a corrupt or missing reading: the
    /// whole session restarts, transport reopened.
    Restart { fault: SessionFault, consumed: usize },
}

/// The session policy: map one matcher verdict to the next step.
/// Parse failures are local to one message attempt; a numeric fault
/// in a matched message escalates to a session restart.
pub fn session_step(out: Outcome) -> (step: SessionStep)
    ensures
        match out {
            Outcome::NeedMore => step is ReadMore,
            Outcome::Failed(err, p) => step matches SessionStep::Skip { err: e, consumed } && e
                == err && consumed == p,
            Outcome::Matched(rec, p) => {
                &&& (step matches SessionStep::Publish { readings, consumed } ==> {
                    &&& consumed == p
                    &&& field_ok(rec@, key_total())
                    &&& field_ok(rec@, key_hot_water())
                    &&& field_ok(rec@, key_solar())
                    &&& readings.total == digits_val(rec@[key_total()])
                    &&& readings.hot_water == digits_val(rec@[key_hot_water()])
                    &&& readings.solar == digits_val(rec@[key_solar()])
                })
                &&& (step matches SessionStep::Restart { fault, consumed } ==> {
                    &&& consumed == p
                    &&& !(field_ok(rec@, key_total()) && field_ok(rec@, key_hot_water())
                        && field_ok(rec@, key_solar()))
                })
                &&& (step is Publish || step is Restart)
            },
        },
{
    match out {
        Outcome::NeedMore => SessionStep::ReadMore,
        Outcome::Failed(err, consumed) => SessionStep::Skip { err, consumed },
        Outcome::Matched(rec, consumed) => match extract_readings(&rec) {
            Ok(readings) => SessionStep::Publish { readings, consumed },
            Err(fault) => SessionStep::Restart { fault, consumed },
        },
    }
}

/// Every message the grammar matches carries all five declared
/// fields; in particular the three channel keys are always present,
/// so a `MissingField` fault can never arise from a matched message.
pub proof fn lemma_matched_record_has_fields(g: Grammar, sig: Seq<Event>)
    requires
        is_message_grammar(g),
    ensures
        s_match(g, sig) matches SpecOutcome::Done { rec, rest } ==> {
            &&& rec.dom() == set![
                name_time(),
                key_temperature(),
                key_total(),
                key_hot_water(),
                key_solar(),
            ]
            &&& rec.contains_key(key_total())
            &&& rec.contains_key(key_hot_water())
            &&& rec.contains_key(key_solar())
        },
{
    lemma_run_keys(g, sig, Map::empty());
    lemma_message_leaf_keys(g);
    match s_match(g, sig) {
        SpecOutcome::Done { rec, rest } => {
            assert(rec.dom() =~= set![
                name_time(),
                key_temperature(),
                key_total(),
                key_hot_water(),
                key_solar(),
            ]);
        },
        _ => {},
    }
}

/// The leaf keys the message grammar declares, computed out.
proof fn lemma_message_leaf_keys(g: Grammar)
    requires
        is_message_grammar(g),
    ensures
        leaf_keys(g) == set![
            name_time(),
            key_temperature(),
            key_total(),
            key_hot_water(),
            key_solar(),
        ],
{
    match g {
        Grammar::SequenceRoot { name, children } => {
            reveal_with_fuel(crate::grammar::children_leaf_keys, 8);
            reveal_with_fuel(crate::grammar::leaf_keys, 8);
            let ch = children@;
            assert(ch.skip(1)[0] == ch[1]);
            assert(ch.skip(1).skip(1) =~= ch.skip(2));
            assert(ch.skip(2)[0] == ch[2]);
            assert(ch.skip(2).skip(1) =~= ch.skip(3));
            assert(ch.skip(3)[0] == ch[3]);
            assert(ch.skip(3).skip(1) =~= ch.skip(4));
            assert(ch.skip(4)[0] == ch[4]);
            assert(ch.skip(4).skip(1) =~= ch.skip(5));
            assert(ch.skip(5).len() == 0);
            lemma_channel_leaf_keys(ch[2]);
            lemma_channel_leaf_keys(ch[3]);
            lemma_channel_leaf_keys(ch[4]);
            assert(leaf_keys(g) =~= set![
                name_time(),
                key_temperature(),
                key_total(),
                key_hot_water(),
                key_solar(),
            ]);
        },
        _ => {},
    }
}

/// A channel wrapper declares exactly its one bound key.
proof fn lemma_channel_leaf_keys(g: Grammar)
    requires
        g matches Grammar::SequenceNode { name, children } && children@.len() == 1
            && children@[0] is LeafCapture,
    ensures
        g matches Grammar::SequenceNode { name, children } ==> leaf_keys(g) == leaf_keys(
            children@[0],
        ),
{
    match g {
        Grammar::SequenceNode { name, children } => {
            reveal_with_fuel(crate::grammar::children_leaf_keys, 4);
            reveal_with_fuel(crate::grammar::leaf_keys, 4);
            assert(children@.skip(1).len() == 0);
            assert(leaf_keys(g) =~= leaf_keys(children@[0]));
        },
        _ => {},
    }
}

} // verus!
