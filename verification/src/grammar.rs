//! The declarative grammar of the one message shape the device emits.
//!
//! A grammar is a finite tree of three node kinds, built once at
//! startup and interpreted top-down once per message.  Child order is
//! significant; unrecognized sibling elements between expected
//! children are skipped by the matcher.

use vstd::prelude::*;

verus! {

/// One node of the message grammar.
#[derive(Debug, PartialEq, Eq)]
pub enum Grammar {
    /// The outermost expected element.  Unlike the other kinds it
    /// also matches its own opening tag.
    SequenceRoot { name: Vec<u8>, children: Vec<Grammar> },
    /// An element whose opening tag the parent has already consumed;
    /// it matches its children in order, then its own closing tag.
    SequenceNode { name: Vec<u8>, children: Vec<Grammar> },
    /// An element expected to hold exactly one run of character data,
    /// captured under the given output field key.
    LeafCapture { name: Vec<u8>, key: Vec<u8> },
}

impl Grammar {
    /// The element name this node expects.
    pub open spec fn spec_tag_name(&self) -> Seq<u8> {
        match self {
            Grammar::SequenceRoot { name, .. } => name@,
            Grammar::SequenceNode { name, .. } => name@,
            Grammar::LeafCapture { name, .. } => name@,
        }
    }

    /// Executable accessor for the expected element name.
    pub fn tag_name(&self) -> (r: &Vec<u8>)
        ensures
            r@ == self.spec_tag_name(),
    {
        match self {
            Grammar::SequenceRoot { name, .. } => name,
            Grammar::SequenceNode { name, .. } => name,
            Grammar::LeafCapture { name, .. } => name,
        }
    }
}

/// Number of nodes in a grammar tree; a termination measure for the
/// interpreter's descent.
pub open spec fn grammar_size(g: Grammar) -> nat
    decreases g,
{
    match g {
        Grammar::SequenceRoot { children, .. } => 1 + children_size(children@),
        Grammar::SequenceNode { children, .. } => 1 + children_size(children@),
        Grammar::LeafCapture { .. } => 1,
    }
}

/// Total size of a sequence of sibling grammar nodes.
pub open spec fn children_size(s: Seq<Grammar>) -> nat
    decreases s,
{
    if s.len() == 0 {
        0
    } else {
        grammar_size(s[0]) + children_size(s.skip(1))
    }
}

/// The set of field keys declared by the leaf captures of a grammar.
pub open spec fn leaf_keys(g: Grammar) -> Set<Seq<u8>>
    decreases g,
{
    match g {
        Grammar::SequenceRoot { children, .. } => children_leaf_keys(children@),
        Grammar::SequenceNode { children, .. } => children_leaf_keys(children@),
        Grammar::LeafCapture { key, .. } => set![key@],
    }
}

/// The field keys declared across a sequence of sibling nodes.
pub open spec fn children_leaf_keys(s: Seq<Grammar>) -> Set<Seq<u8>>
    decreases s,
{
    if s.len() == 0 {
        Set::empty()
    } else {
        leaf_keys(s[0]).union(children_leaf_keys(s.skip(1)))
    }
}

} // verus!
