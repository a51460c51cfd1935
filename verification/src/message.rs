//! The fixed grammar of the energy monitor's message.
//!
//! The device emits one message shape: a `msg` element holding, in
//! order, a `time` leaf, a `tmpr` (temperature) leaf, and three
//! channel wrappers `ch1`, `ch2`, `ch3`, each holding a single
//! `watts` leaf bound to the field keys `total`, `hot_water` and
//! `solar` respectively.  The key for the second channel is the
//! underscored form `hot_water` throughout: it is the single
//! canonical spelling this library uses.
//!
//! Element names and field keys are ASCII byte strings, written out
//! here as their byte values.

use vstd::prelude::*;
use crate::grammar::Grammar;

verus! {

/// The bytes of the element name `msg`.
pub open spec fn name_msg() -> Seq<u8> {
    seq![109u8, 115u8, 103u8]
}

/// The bytes of the element name (and field key) `time`.
pub open spec fn name_time() -> Seq<u8> {
    seq![116u8, 105u8, 109u8, 101u8]
}

/// The bytes of the element name `tmpr`.
pub open spec fn name_tmpr() -> Seq<u8> {
    seq![116u8, 109u8, 112u8, 114u8]
}

/// The bytes of the element name `ch1`.
pub open spec fn name_ch1() -> Seq<u8> {
    seq![99u8, 104u8, 49u8]
}

/// The bytes of the element name `ch2`.
pub open spec fn name_ch2() -> Seq<u8> {
    seq![99u8, 104u8, 50u8]
}

/// The bytes of the element name `ch3`.
pub open spec fn name_ch3() -> Seq<u8> {
    seq![99u8, 104u8, 51u8]
}

/// The bytes of the element name `watts`.
pub open spec fn name_watts() -> Seq<u8> {
    seq![119u8, 97u8, 116u8, 116u8, 115u8]
}

/// The bytes of the field key `temperature`.
pub open spec fn key_temperature() -> Seq<u8> {
    seq![116u8, 101u8, 109u8, 112u8, 101u8, 114u8, 97u8, 116u8, 117u8, 114u8, 101u8]
}

/// The bytes of the field key `total`.
pub open spec fn key_total() -> Seq<u8> {
    seq![116u8, 111u8, 116u8, 97u8, 108u8]
}

/// The bytes of the field key `hot_water`.
pub open spec fn key_hot_water() -> Seq<u8> {
    seq![104u8, 111u8, 116u8, 95u8, 119u8, 97u8, 116u8, 101u8, 114u8]
}

/// The bytes of the field key `solar`.
pub open spec fn key_solar() -> Seq<u8> {
    seq![115u8, 111u8, 108u8, 97u8, 114u8]
}

/// Executable bytes of `time`.
pub fn bytes_time() -> (r: Vec<u8>)
    ensures
        r@ == name_time(),
{
    let mut v: Vec<u8> = Vec::new();
    v.push(116u8);
    v.push(105u8);
    v.push(109u8);
    v.push(101u8);
    proof {
        assert(v@ =~= name_time());
    }
    v
}

/// Executable bytes of `temperature`.
pub fn bytes_temperature() -> (r: Vec<u8>)
    ensures
        r@ == key_temperature(),
{
    let mut v: Vec<u8> = Vec::new();
    v.push(116u8);
    v.push(101u8);
    v.push(109u8);
    v.push(112u8);
    v.push(101u8);
    v.push(114u8);
    v.push(97u8);
    v.push(116u8);
    v.push(117u8);
    v.push(114u8);
    v.push(101u8);
    proof {
        assert(v@ =~= key_temperature());
    }
    v
}

/// Executable bytes of `total`.
pub fn bytes_total() -> (r: Vec<u8>)
    ensures
        r@ == key_total(),
{
    let mut v: Vec<u8> = Vec::new();
    v.push(116u8);
    v.push(111u8);
    v.push(116u8);
    v.push(97u8);
    v.push(108u8);
    proof {
        assert(v@ =~= key_total());
    }
    v
}

/// Executable bytes of `hot_water`.
pub fn bytes_hot_water() -> (r: Vec<u8>)
    ensures
        r@ == key_hot_water(),
{
    let mut v: Vec<u8> = Vec::new();
    v.push(104u8);
    v.push(111u8);
    v.push(116u8);
    v.push(95u8);
    v.push(119u8);
    v.push(97u8);
    v.push(116u8);
    v.push(101u8);
    v.push(114u8);
    proof {
        assert(v@ =~= key_hot_water());
    }
    v
}

/// Executable bytes of `solar`.
pub fn bytes_solar() -> (r: Vec<u8>)
    ensures
        r@ == key_solar(),
{
    let mut v: Vec<u8> = Vec::new();
    v.push(115u8);
    v.push(111u8);
    v.push(108u8);
    v.push(97u8);
    v.push(114u8);
    proof {
        assert(v@ =~= key_solar());
    }
    v
}

/// The node is a leaf capture with this element name and field key.
pub open spec fn is_leaf(g: Grammar, name: Seq<u8>, key: Seq<u8>) -> bool {
    g matches Grammar::LeafCapture { name: n, key: k } && n@ == name && k@ == key
}

/// The node is a channel wrapper: a sequence node with this element
/// name holding a single `watts` leaf bound to this field key.
pub open spec fn is_channel(g: Grammar, name: Seq<u8>, key: Seq<u8>) -> bool {
    &&& g matches Grammar::SequenceNode { name: n, children: ch }
    &&& n@ == name
    &&& ch@.len() == 1
    &&& is_leaf(ch@[0], name_watts(), key)
}

/// The grammar is exactly the device's message shape.
pub open spec fn is_message_grammar(g: Grammar) -> bool {
    &&& g matches Grammar::SequenceRoot { name: n, children: ch }
    &&& n@ == name_msg()
    &&& ch@.len() == 5
    &&& is_leaf(ch@[0], name_time(), name_time())
    &&& is_leaf(ch@[1], name_tmpr(), key_temperature())
    &&& is_channel(ch@[2], name_ch1(), key_total())
    &&& is_channel(ch@[3], name_ch2(), key_hot_water())
    &&& is_channel(ch@[4], name_ch3(), key_solar())
}

/// Build one leaf capture from byte values.
fn leaf_node(name: Vec<u8>, key: Vec<u8>) -> (g: Grammar)
    ensures
        is_leaf(g, name@, key@),
{
    Grammar::LeafCapture { name, key }
}

/// Build one channel wrapper holding a `watts` leaf.
fn channel_node(name: Vec<u8>, key: Vec<u8>) -> (g: Grammar)
    ensures
        is_channel(g, name@, key@),
{
    let mut watts: Vec<u8> = Vec::new();
    watts.push(119u8);
    watts.push(97u8);
    watts.push(116u8);
    watts.push(116u8);
    watts.push(115u8);
    proof {
        assert(watts@ =~= name_watts());
    }
    let leaf = leaf_node(watts, key);
    let mut children: Vec<Grammar> = Vec::new();
    children.push(leaf);
    Grammar::SequenceNode { name, children }
}

/// The grammar of the device's message, built once at startup.
pub fn message_grammar() -> (g: Grammar)
    ensures
        is_message_grammar(g),
{
    let mut msg: Vec<u8> = Vec::new();
    msg.push(109u8);
    msg.push(115u8);
    msg.push(103u8);
    proof {
        assert(msg@ =~= name_msg());
    }
    let mut tmpr: Vec<u8> = Vec::new();
    tmpr.push(116u8);
    tmpr.push(109u8);
    tmpr.push(112u8);
    tmpr.push(114u8);
    proof {
        assert(tmpr@ =~= name_tmpr());
    }
    let mut ch1: Vec<u8> = Vec::new();
    ch1.push(99u8);
    ch1.push(104u8);
    ch1.push(49u8);
    proof {
        assert(ch1@ =~= name_ch1());
    }
    let mut ch2: Vec<u8> = Vec::new();
    ch2.push(99u8);
    ch2.push(104u8);
    ch2.push(50u8);
    proof {
        assert(ch2@ =~= name_ch2());
    }
    let mut ch3: Vec<u8> = Vec::new();
    ch3.push(99u8);
    ch3.push(104u8);
    ch3.push(51u8);
    proof {
        assert(ch3@ =~= name_ch3());
    }
    let mut children: Vec<Grammar> = Vec::new();
    children.push(leaf_node(bytes_time(), bytes_time()));
    children.push(leaf_node(tmpr, bytes_temperature()));
    children.push(channel_node(ch1, bytes_total()));
    children.push(channel_node(ch2, bytes_hot_water()));
    children.push(channel_node(ch3, bytes_solar()));
    Grammar::SequenceRoot { name: msg, children }
}

} // verus!
