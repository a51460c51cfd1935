//! Structural events and the significant-event filter.
//!
//! The tokenizer that turns raw bytes into events is an external
//! collaborator; it hands the library plain values of the `Event`
//! type.  Only element starts, element ends and character data carry
//! meaning for matching; every other kind is noise that the filter
//! skips.

use vstd::prelude::*;

verus! {

/// One structural event from the byte-level tokenizer.  Names and
/// character data are carried as their raw bytes.
#[derive(Debug, PartialEq, Eq)]
pub enum Event {
    /// An opening tag with the given element name.
    Start(Vec<u8>),
    /// A closing tag with the given element name.
    End(Vec<u8>),
    /// Character data inside an element.
    Text(Vec<u8>),
    /// The beginning of a document: noise.
    DocumentStart,
    /// A processing instruction: noise.
    ProcessingInstruction,
    /// A raw unparsed block: noise.
    RawBlock,
    /// A comment: noise.
    Comment,
    /// Whitespace-only character data: noise.
    Whitespace,
}

/// An event is significant when it is an element start, an element
/// end, or character data; everything else is ignorable noise.
pub open spec fn is_significant(e: Event) -> bool {
    match e {
        Event::Start(_) => true,
        Event::End(_) => true,
        Event::Text(_) => true,
        _ => false,
    }
}

impl Event {
    /// Executable test matching `is_significant`.
    pub fn significant(&self) -> (r: bool)
        ensures
            r == is_significant(*self),
    {
        match self {
            Event::Start(_) => true,
            Event::End(_) => true,
            Event::Text(_) => true,
            _ => false,
        }
    }
}

/// The sequence of significant events in `s` from position `pos` on,
/// in stream order.  This is what the matcher actually consumes: the
/// filter makes the noise between significant events invisible.
pub open spec fn sig_from(s: Seq<Event>, pos: int) -> Seq<Event>
    decreases s.len() - pos,
{
    if pos < 0 || pos >= s.len() {
        Seq::empty()
    } else if is_significant(s[pos]) {
        seq![s[pos]] + sig_from(s, pos + 1)
    } else {
        sig_from(s, pos + 1)
    }
}

/// Reading further into the stream can only leave fewer significant
/// events ahead.
pub proof fn lemma_sig_from_mono(s: Seq<Event>, a: int, b: int)
    requires
        0 <= a <= b,
    ensures
        sig_from(s, b).len() <= sig_from(s, a).len(),
    decreases b - a,
{
    if a < b {
        lemma_sig_from_mono(s, a + 1, b);
    }
}

/// Scan forward from `pos` for the next significant event; the
/// executable face of the significant-event filter.  Returns the
/// index of that event, or `None` when only noise is left.
pub fn next_significant(events: &Vec<Event>, pos: usize) -> (r: Option<usize>)
    requires
        pos <= events@.len(),
    ensures
        events@.len() <= usize::MAX,
        match r {
            Some(j) => {
                &&& pos <= j < events@.len()
                &&& is_significant(events@[j as int])
                &&& sig_from(events@, pos as int) == seq![events@[j as int]] + sig_from(
                    events@,
                    j + 1,
                )
            },
            None => sig_from(events@, pos as int) == Seq::<Event>::empty(),
        },
{
    let mut i: usize = pos;
    while i < events.len()
        invariant
            pos <= i <= events@.len(),
            sig_from(events@, pos as int) == sig_from(events@, i as int),
        decreases events@.len() - i,
    {
        if events[i].significant() {
            return Some(i);
        }
        i = i + 1;
    }
    None
}

} // verus!
