//! The tag-matcher interpreter and its specification.
//!
//! The interpreter walks a [`Grammar`](crate::grammar::Grammar)
//! against the significant events of a finite stream prefix and
//! produces a flat field record, a structured failure, or the verdict
//! that the prefix ends before the message does.
//!
//! The meaning of matching is given by the spec interpreter
//! [`s_run`]/[`s_seq`]/[`s_skip`], a function of the significant
//! events alone.  The executable matcher is proved to compute exactly
//! that function, which makes noise filtering transparent by
//! construction (see [`lemma_noise_transparent`]).

use vstd::prelude::*;
use crate::events::{Event, is_significant, sig_from, next_significant, lemma_sig_from_mono};
use crate::grammar::{Grammar, grammar_size, children_size, leaf_keys, children_leaf_keys};
use crate::record::{Record, bytes_eq, copy_bytes};

verus! {

/// Why matching one message failed.
#[derive(Debug, Clone, Copy, PartialEq, Eq)]
pub enum MatchError {
    /// Something other than the expected start tag stood where one
    /// was required (including a wrong top-level message kind).
    UnexpectedEvent,
    /// A leaf element held no character data.
    MissingContent,
    /// Mid-sequence the stream produced neither a matching nor a
    /// skippable start tag; the message parse is abandoned and the
    /// caller must resynchronize at the next message boundary.
    StreamOutOfSync,
}

/// The abstract outcome of matching against a significant-event
/// sequence: a finished record and the remaining events, a failure
/// and the remaining events, or the verdict that the sequence ended
/// before the message did.
pub enum SpecOutcome {
    Done { rec: Map<Seq<u8>, Seq<u8>>, rest: Seq<Event> },
    Fail { err: MatchError, rest: Seq<Event> },
    More,
}

/// Skip-to-close primitive, abstractly: drop significant events until
/// a closing tag with the given name goes by, nested content
/// included, and return what follows it.  `None` when the sequence
/// ends first.
///
/// The match is on the closing tag's name alone, with no depth
/// counter: a same-named nested element's closing tag ends the skip.
/// This name-only policy is deliberate and kept explicit here.
pub open spec fn s_skip(name: Seq<u8>, sig: Seq<Event>) -> Option<Seq<Event>>
    decreases sig.len(),
{
    if sig.len() == 0 {
        None
    } else {
        match sig[0] {
            Event::End(n) => if n@ == name {
                Some(sig.skip(1))
            } else {
                s_skip(name, sig.skip(1))
            },
            _ => s_skip(name, sig.skip(1)),
        }
    }
}

/// What matching one grammar node against a significant-event
/// sequence yields, with `acc` the record accumulated so far.
///
/// A `SequenceRoot` matches its own opening tag first; on a wrong
/// start tag it drains that element's entire subtree before failing,
/// so the stream is left at a known boundary.  A `SequenceNode` goes
/// straight to its children, its opening tag having been consumed by
/// the caller.  A `LeafCapture` expects character data, binds it to
/// its field key, and consumes its closing tag.
pub open spec fn s_run(node: Grammar, sig: Seq<Event>, acc: Map<Seq<u8>, Seq<u8>>) -> SpecOutcome
    decreases sig.len(), grammar_size(node), 1int,
{
    match node {
        Grammar::SequenceRoot { name, children } => {
            if sig.len() == 0 {
                SpecOutcome::More
            } else {
                match sig[0] {
                    Event::Start(n) => if n@ == name@ {
                        s_seq(name@, children@, sig.skip(1), acc)
                    } else {
                        match s_skip(n@, sig.skip(1)) {
                            Some(rest) => SpecOutcome::Fail {
                                err: MatchError::UnexpectedEvent,
                                rest,
                            },
                            None => SpecOutcome::More,
                        }
                    },
                    _ => SpecOutcome::Fail {
                        err: MatchError::UnexpectedEvent,
                        rest: sig.skip(1),
                    },
                }
            }
        },
        Grammar::SequenceNode { name, children } => s_seq(name@, children@, sig, acc),
        Grammar::LeafCapture { name, key } => {
            if sig.len() == 0 {
                SpecOutcome::More
            } else {
                match sig[0] {
                    Event::Text(c) => match s_skip(name@, sig.skip(1)) {
                        Some(rest) => SpecOutcome::Done { rec: acc.insert(key@, c@), rest },
                        None => SpecOutcome::More,
                    },
                    _ => SpecOutcome::Fail {
                        err: MatchError::MissingContent,
                        rest: sig.skip(1),
                    },
                }
            }
        },
    }
}

/// Sequence logic shared by both sequence kinds once their own start
/// tag is resolved: match each declared child in order, skipping any
/// unrecognized sibling element wholesale, then consume the enclosing
/// element's own closing tag.  A significant event that is no start
/// tag where a child is awaited abandons the parse out of sync.
pub open spec fn s_seq(
    name: Seq<u8>,
    children: Seq<Grammar>,
    sig: Seq<Event>,
    acc: Map<Seq<u8>, Seq<u8>>,
) -> SpecOutcome
    decreases sig.len(), children_size(children), 0int,
{
    if children.len() == 0 {
        match s_skip(name, sig) {
            Some(rest) => SpecOutcome::Done { rec: acc, rest },
            None => SpecOutcome::More,
        }
    } else if sig.len() == 0 {
        SpecOutcome::More
    } else {
        match sig[0] {
            Event::Start(n) => if n@ == children[0].spec_tag_name() {
                match s_run(children[0], sig.skip(1), acc) {
                    SpecOutcome::Done { rec, rest } => if rest.len() < sig.len() {
                        s_seq(name, children.skip(1), rest, rec)
                    } else {
                        SpecOutcome::More
                    },
                    SpecOutcome::Fail { err, rest } => SpecOutcome::Fail { err, rest },
                    SpecOutcome::More => SpecOutcome::More,
                }
            } else {
                match s_skip(n@, sig.skip(1)) {
                    Some(rest) => if rest.len() < sig.len() {
                        s_seq(name, children, rest, acc)
                    } else {
                        SpecOutcome::More
                    },
                    None => SpecOutcome::More,
                }
            },
            _ => SpecOutcome::Fail { err: MatchError::StreamOutOfSync, rest: sig.skip(1) },
        }
    }
}

/// Matching a whole message: run the root node on the significant
/// events with an empty record.
pub open spec fn s_match(root: Grammar, sig: Seq<Event>) -> SpecOutcome {
    s_run(root, sig, Map::empty())
}

/// The executable matcher's verdict on a stream prefix.  Successful
/// and failed parses report how many events of the prefix they
/// consumed, so the caller can drop them and carry on from a known
/// boundary; `NeedMore` asks for further events.
#[derive(Debug)]
pub enum Outcome {
    /// The message matched; the record and the consumed prefix length.
    Matched(Record, usize),
    /// The parse of this message failed; the error and the consumed
    /// prefix length.
    Failed(MatchError, usize),
    /// The prefix ended before the message did.
    NeedMore,
}

/// How an executable verdict corresponds to the spec interpreter's
/// outcome on the events from position `lo` on.
pub open spec fn corresponds(out: Outcome, events: Seq<Event>, lo: int, s: SpecOutcome) -> bool {
    match out {
        Outcome::Matched(rec, p) => {
            &&& lo < p <= events.len()
            &&& (s matches SpecOutcome::Done { rec: m, rest } && m == rec@ && rest == sig_from(
                events,
                p as int,
            ))
        },
        Outcome::Failed(err, p) => {
            &&& lo < p <= events.len()
            &&& (s matches SpecOutcome::Fail { err: e, rest } && e == err && rest == sig_from(
                events,
                p as int,
            ))
        },
        Outcome::NeedMore => s is More,
    }
}

/// Skip-to-close primitive: consume events until a closing tag with
/// the given name goes by, discarding everything else, nested
/// elements included; the index just past it, or `None` when the
/// prefix ends first.
pub fn skip_to_close(events: &Vec<Event>, pos: usize, name: &Vec<u8>) -> (r: Option<usize>)
    requires
        pos <= events@.len(),
    ensures
        match r {
            Some(j) => {
                &&& pos < j <= events@.len()
                &&& s_skip(name@, sig_from(events@, pos as int)) == Some(
                    sig_from(events@, j as int),
                )
            },
            None => s_skip(name@, sig_from(events@, pos as int)) is None,
        },
{
    let mut cur: usize = pos;
    loop
        invariant
            pos <= cur <= events@.len(),
            s_skip(name@, sig_from(events@, pos as int)) == s_skip(
                name@,
                sig_from(events@, cur as int),
            ),
        decreases events@.len() - cur,
    {
        match next_significant(events, cur) {
            None => {
                return None;
            },
            Some(j) => {
                let ghost head = events@[j as int];
                let ghost tail = sig_from(events@, j + 1);
                proof {
                    assert((seq![head] + tail)[0] == head);
                    assert((seq![head] + tail).skip(1) =~= tail);
                }
                match &events[j] {
                    Event::End(n) => {
                        if bytes_eq(n, name) {
                            return Some(j + 1);
                        } else {
                            cur = j + 1;
                        }
                    },
                    _ => {
                        cur = j + 1;
                    },
                }
            },
        }
    }
}

/// Run one grammar node at `pos`; the single dispatch of the
/// interpreter.  Computes exactly [`s_run`] on the significant events
/// from `pos`, with `acc` the record accumulated so far.
pub fn run_parser(events: &Vec<Event>, pos: usize, node: &Grammar, acc: Record) -> (out: Outcome)
    requires
        pos <= events@.len(),
    ensures
        corresponds(out, events@, pos as int, s_run(*node, sig_from(events@, pos as int), acc@)),
    decreases events@.len() - pos, grammar_size(*node),
{
    match node {
        Grammar::SequenceRoot { name, children } => {
            match next_significant(events, pos) {
                None => Outcome::NeedMore,
                Some(j) => {
                    let ghost head = events@[j as int];
                    let ghost tail = sig_from(events@, j + 1);
                    proof {
                        assert((seq![head] + tail)[0] == head);
                        assert((seq![head] + tail).skip(1) =~= tail);
                    }
                    match &events[j] {
                        Event::Start(n) => {
                            if bytes_eq(n, name) {
                                parse_tag(events, j + 1, name, children, acc)
                            } else {
                                match skip_to_close(events, j + 1, n) {
                                    None => Outcome::NeedMore,
                                    Some(k) => Outcome::Failed(MatchError::UnexpectedEvent, k),
                                }
                            }
                        },
                        _ => Outcome::Failed(MatchError::UnexpectedEvent, j + 1),
                    }
                },
            }
        },
        Grammar::SequenceNode { name, children } => parse_tag(events, pos, name, children, acc),
        Grammar::LeafCapture { name, key } => {
            match next_significant(events, pos) {
                None => Outcome::NeedMore,
                Some(j) => {
                    let ghost head = events@[j as int];
                    let ghost tail = sig_from(events@, j + 1);
                    proof {
                        assert((seq![head] + tail)[0] == head);
                        assert((seq![head] + tail).skip(1) =~= tail);
                    }
                    match &events[j] {
                        Event::Text(c) => {
                            let mut rec = acc;
                            rec.insert(copy_bytes(key), copy_bytes(c));
                            match skip_to_close(events, j + 1, name) {
                                None => Outcome::NeedMore,
                                Some(k) => Outcome::Matched(rec, k),
                            }
                        },
                        _ => Outcome::Failed(MatchError::MissingContent, j + 1),
                    }
                },
            }
        },
    }
}

/// The sequence logic: match the declared children in order from
/// `pos`, skipping unrecognized sibling elements, then consume the
/// enclosing element's closing tag.  Computes exactly [`s_seq`].
#[verifier::loop_isolation(false)]
pub fn parse_tag(
    events: &Vec<Event>,
    pos: usize,
    name: &Vec<u8>,
    children: &Vec<Grammar>,
    acc: Record,
) -> (out: Outcome)
    requires
        pos <= events@.len(),
    ensures
        corresponds(
            out,
            events@,
            pos as int,
            s_seq(name@, children@, sig_from(events@, pos as int), acc@),
        ),
    decreases events@.len() - pos, children_size(children@),
{
    let ghost target = s_seq(name@, children@, sig_from(events@, pos as int), acc@);
    let mut i: usize = 0;
    let mut cur: usize = pos;
    let mut acc = acc;
    proof {
        assert(children@.skip(0) =~= children@);
    }
    while i < children.len()
        invariant
            pos <= cur <= events@.len(),
            i <= children@.len(),
            target == s_seq(name@, children@.skip(i as int), sig_from(events@, cur as int), acc@),
        decreases events@.len() - cur,
    {
        match next_significant(events, cur) {
            None => {
                return Outcome::NeedMore;
            },
            Some(j) => {
                let ghost sig = sig_from(events@, cur as int);
                let ghost head = events@[j as int];
                let ghost tail = sig_from(events@, j + 1);
                proof {
                    assert((seq![head] + tail)[0] == head);
                    assert((seq![head] + tail).skip(1) =~= tail);
                    assert(children@.skip(i as int)[0] == children@[i as int]);
                }
                match &events[j] {
                    Event::Start(n) => {
                        let child = &children[i];
                        if bytes_eq(n, child.tag_name()) {
                            match run_parser(events, j + 1, child, acc) {
                                Outcome::Matched(acc2, p2) => {
                                    proof {
                                        lemma_sig_from_mono(events@, j + 1, p2 as int);
                                        assert(sig_from(events@, p2 as int).len() < sig.len());
                                        assert(children@.skip(i as int).skip(1) =~= children@.skip(
                                            i + 1,
                                        ));
                                    }
                                    acc = acc2;
                                    cur = p2;
                                    i = i + 1;
                                },
                                Outcome::Failed(e, p2) => {
                                    return Outcome::Failed(e, p2);
                                },
                                Outcome::NeedMore => {
                                    return Outcome::NeedMore;
                                },
                            }
                        } else {
                            match skip_to_close(events, j + 1, n) {
                                None => {
                                    return Outcome::NeedMore;
                                },
                                Some(k) => {
                                    proof {
                                        lemma_sig_from_mono(events@, j + 1, k as int);
                                        assert(sig_from(events@, k as int).len() < sig.len());
                                    }
                                    cur = k;
                                },
                            }
                        }
                    },
                    _ => {
                        return Outcome::Failed(MatchError::StreamOutOfSync, j + 1);
                    },
                }
            },
        }
    }
    proof {
        assert(children@.skip(i as int) =~= Seq::<Grammar>::empty());
    }
    match skip_to_close(events, cur, name) {
        None => Outcome::NeedMore,
        Some(k) => Outcome::Matched(acc, k),
    }
}

/// Inserting one ignorable event anywhere in a stream leaves its
/// significant events unchanged.
pub proof fn lemma_sig_from_insert(s: Seq<Event>, i: int, noise: Event)
    requires
        0 <= i <= s.len(),
        !is_significant(noise),
    ensures
        sig_from(s.insert(i, noise), 0) == sig_from(s, 0),
{
    lemma_sig_from_insert_front(s, i, noise, 0);
}

/// For positions at or before the insertion point, the significant
/// events ahead are unchanged by the insertion.
proof fn lemma_sig_from_insert_front(s: Seq<Event>, i: int, noise: Event, p: int)
    requires
        0 <= p <= i <= s.len(),
        !is_significant(noise),
    ensures
        sig_from(s.insert(i, noise), p) == sig_from(s, p),
    decreases i - p,
{
    let t = s.insert(i, noise);
    if p == i {
        assert(t[i] == noise);
        lemma_sig_from_insert_back(s, i, noise, i);
    } else {
        assert(t[p] == s[p]);
        lemma_sig_from_insert_front(s, i, noise, p + 1);
    }
}

/// Past the insertion point, the significant events ahead in the
/// widened stream match those of the original at one index less.
proof fn lemma_sig_from_insert_back(s: Seq<Event>, i: int, noise: Event, q: int)
    requires
        0 <= i <= s.len(),
        i <= q <= s.len(),
        !is_significant(noise),
    ensures
        sig_from(s.insert(i, noise), q + 1) == sig_from(s, q),
    decreases s.len() - q,
{
    let t = s.insert(i, noise);
    if q < s.len() {
        assert(t[q + 1] == s[q]);
        lemma_sig_from_insert_back(s, i, noise, q + 1);
    }
}

/// Noise transparency, generally: the matcher's abstract outcome is
/// a function of the significant events alone, so any two streams
/// that agree on their significant events — however their ignorable
/// noise differs — match any grammar to the same outcome.
pub proof fn lemma_same_significant_same_outcome(s1: Seq<Event>, s2: Seq<Event>, g: Grammar)
    requires
        sig_from(s1, 0) == sig_from(s2, 0),
    ensures
        s_match(g, sig_from(s1, 0)) == s_match(g, sig_from(s2, 0)),
{
}

/// Noise transparency, pointwise: inserting (or, read right to
/// left, removing) one ignorable event anywhere in a stream leaves
/// the abstract outcome of matching any grammar unchanged.
pub proof fn lemma_noise_transparent(s: Seq<Event>, i: int, noise: Event, g: Grammar)
    requires
        0 <= i <= s.len(),
        !is_significant(noise),
    ensures
        s_match(g, sig_from(s.insert(i, noise), 0)) == s_match(g, sig_from(s, 0)),
{
    lemma_sig_from_insert(s, i, noise);
    lemma_same_significant_same_outcome(s.insert(i, noise), s, g);
}

/// A finished parse binds exactly the keys accumulated so far plus
/// every field key the grammar's leaf captures declare.
pub proof fn lemma_run_keys(node: Grammar, sig: Seq<Event>, acc: Map<Seq<u8>, Seq<u8>>)
    ensures
        s_run(node, sig, acc) matches SpecOutcome::Done { rec, rest } ==> rec.dom() == acc.dom()
            + leaf_keys(node),
    decreases sig.len(), grammar_size(node), 1int,
{
    match node {
        Grammar::SequenceRoot { name, children } => {
            if sig.len() > 0 {
                match sig[0] {
                    Event::Start(n) => {
                        if n@ == name@ {
                            lemma_seq_keys(name@, children@, sig.skip(1), acc);
                        }
                    },
                    _ => {},
                }
            }
        },
        Grammar::SequenceNode { name, children } => {
            lemma_seq_keys(name@, children@, sig, acc);
        },
        Grammar::LeafCapture { name, key } => {
            if sig.len() > 0 {
                match sig[0] {
                    Event::Text(c) => {
                        match s_skip(name@, sig.skip(1)) {
                            Some(rest) => {
                                assert(acc.insert(key@, c@).dom() =~= acc.dom() + set![key@]);
                            },
                            None => {},
                        }
                    },
                    _ => {},
                }
            }
        },
    }
}

/// Sequence form of [`lemma_run_keys`], over the declared children.
pub proof fn lemma_seq_keys(
    name: Seq<u8>,
    children: Seq<Grammar>,
    sig: Seq<Event>,
    acc: Map<Seq<u8>, Seq<u8>>,
)
    ensures
        s_seq(name, children, sig, acc) matches SpecOutcome::Done { rec, rest } ==> rec.dom()
            == acc.dom() + children_leaf_keys(children),
    decreases sig.len(), children_size(children), 0int,
{
    if children.len() == 0 {
        match s_skip(name, sig) {
            Some(rest) => {
                assert(acc.dom() =~= acc.dom() + children_leaf_keys(children));
            },
            None => {},
        }
    } else if sig.len() == 0 {
    } else {
        match sig[0] {
            Event::Start(n) => {
                if n@ == children[0].spec_tag_name() {
                    lemma_run_keys(children[0], sig.skip(1), acc);
                    match s_run(children[0], sig.skip(1), acc) {
                        SpecOutcome::Done { rec: rec1, rest: rest1 } => {
                            if rest1.len() < sig.len() {
                                lemma_seq_keys(name, children.skip(1), rest1, rec1);
                                match s_seq(name, children.skip(1), rest1, rec1) {
                                    SpecOutcome::Done { rec, rest } => {
                                        assert(rec.dom() =~= acc.dom() + children_leaf_keys(
                                            children,
                                        ));
                                    },
                                    _ => {},
                                }
                            }
                        },
                        _ => {},
                    }
                } else {
                    match s_skip(n@, sig.skip(1)) {
                        Some(rest) => {
                            if rest.len() < sig.len() {
                                lemma_seq_keys(name, children, rest, acc);
                            }
                        },
                        None => {},
                    }
                }
            },
            _ => {},
        }
    }
}

/// Match one whole message against a grammar on a stream prefix.
/// The verdict computes exactly [`s_match`] on the significant events
/// of the prefix; consumed counts let the caller drop the parsed
/// prefix and continue at a message boundary.
pub fn match_message(events: &Vec<Event>, grammar: &Grammar) -> (out: Outcome)
    ensures
        corresponds(out, events@, 0, s_match(*grammar, sig_from(events@, 0))),
{
    run_parser(events, 0, grammar, Record::new())
}

} // verus!
