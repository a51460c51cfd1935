//! The flat field record produced by matching one message.
//!
//! A record maps field keys (declared by the grammar's leaf captures)
//! to the character data captured for them.  It is viewed as a map
//! from key bytes to value bytes; a later insert for the same key
//! overwrites the earlier one.

use vstd::prelude::*;

verus! {

use vstd::std_specs::cmp::PartialEqSpec;

/// A field-key to captured-text mapping, built incrementally while a
/// message is matched.
#[derive(Debug)]
pub struct Record {
    entries: Vec<(Vec<u8>, Vec<u8>)>,
}

/// The map described by a sequence of key/value entries, later
/// entries overwriting earlier ones.
pub open spec fn entries_map(s: Seq<(Vec<u8>, Vec<u8>)>) -> Map<Seq<u8>, Seq<u8>>
    decreases s.len(),
{
    if s.len() == 0 {
        Map::empty()
    } else {
        entries_map(s.drop_last()).insert(s.last().0@, s.last().1@)
    }
}

impl View for Record {
    type V = Map<Seq<u8>, Seq<u8>>;

    closed spec fn view(&self) -> Map<Seq<u8>, Seq<u8>> {
        entries_map(self.entries@)
    }
}

/// Byte-vector equality, stated over the abstract sequences.
pub fn bytes_eq(a: &Vec<u8>, b: &Vec<u8>) -> (r: bool)
    ensures
        r == (a@ == b@),
{
    let r = a == b;
    proof {
        if r {
            assert(a@ =~= b@);
        }
        if a@ == b@ {
            assert(a.eq_spec(b));
        }
    }
    r
}

/// A fresh byte vector holding the same bytes.
pub fn copy_bytes(a: &Vec<u8>) -> (r: Vec<u8>)
    ensures
        r@ == a@,
{
    let mut r: Vec<u8> = Vec::new();
    let mut i: usize = 0;
    proof {
        assert(r@ =~= a@.take(0));
    }
    while i < a.len()
        invariant
            i <= a@.len(),
            r@ == a@.take(i as int),
        decreases a@.len() - i,
    {
        r.push(a[i]);
        i = i + 1;
        proof {
            assert(r@ =~= a@.take(i as int));
        }
    }
    proof {
        assert(a@.take(a@.len() as int) =~= a@);
    }
    r
}

impl Record {
    /// An empty record.
    pub fn new() -> (r: Record)
        ensures
            r@ == Map::<Seq<u8>, Seq<u8>>::empty(),
    {
        Record { entries: Vec::new() }
    }

    /// Bind `key` to `value`, overwriting any earlier binding.
    pub fn insert(&mut self, key: Vec<u8>, value: Vec<u8>)
        ensures
            final(self)@ == old(self)@.insert(key@, value@),
    {
        let ghost k = key@;
        let ghost v = value@;
        self.entries.push((key, value));
        proof {
            assert(self.entries@.drop_last() =~= old(self).entries@);
            assert(self.entries@.last().0@ == k);
            assert(self.entries@.last().1@ == v);
        }
    }

    /// Look a key up; the captured text for it, if any.
    pub fn get(&self, key: &Vec<u8>) -> (r: Option<&Vec<u8>>)
        ensures
            match r {
                Some(v) => self@.contains_key(key@) && v@ == self@[key@],
                None => !self@.contains_key(key@),
            },
    {
        let mut i: usize = self.entries.len();
        proof {
            assert(self.entries@.take(i as int) =~= self.entries@);
        }
        while i > 0
            invariant
                i <= self.entries@.len(),
                entries_map(self.entries@).contains_key(key@) == entries_map(
                    self.entries@.take(i as int),
                ).contains_key(key@),
                entries_map(self.entries@).contains_key(key@) ==> entries_map(self.entries@)[key@]
                    == entries_map(self.entries@.take(i as int))[key@],
            decreases i,
        {
            i = i - 1;
            let hit = bytes_eq(&self.entries[i].0, key);
            proof {
                let pre = self.entries@.take(i + 1);
                assert(pre.drop_last() =~= self.entries@.take(i as int));
                assert(pre.last() == self.entries@[i as int]);
            }
            if hit {
                return Some(&self.entries[i].1);
            }
        }
        proof {
            assert(self.entries@.take(0) =~= Seq::<(Vec<u8>, Vec<u8>)>::empty());
        }
        None
    }
}

} // verus!
