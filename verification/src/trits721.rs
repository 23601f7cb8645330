//! Sequences of 721 trits: 80 groups, 240 trytes, 160 bytes when packed.
//!
//! 721 is no multiple of nine: the sequence holds the 80 whole groups that
//! fit, 720 trits, and the last trit has no place in it.

use vstd::prelude::*;
use crate::arrays::{
    flatten_groups, group_trytes, pack_groups, random_trytes, read_groups, unpack_pairs,
};
use crate::layout::{
    all_nominal, all_trytes, all_valid, flatten, is_readable, lemma_flatten_valid,
    lemma_pack_unpack_all, lemma_readable_valid, lemma_regroup_valid, lemma_unpack_pack_all,
    pack_all, readable_groups, regroup, unpack_all,
};
use crate::packer::{B16, T9};

verus! {

/// A sequence of 80 groups of three trytes.
pub struct T721(pub [T9; 80]);

/// The packed form of a sequence of 80 groups: 80 pairs of bytes.
pub struct B1296(pub [B16; 80]);

impl View for T721 {
    type V = Seq<T9>;

    open spec fn view(&self) -> Seq<T9> {
        self.0@
    }
}

impl View for B1296 {
    type V = Seq<B16>;

    open spec fn view(&self) -> Seq<B16> {
        self.0@
    }
}

impl T721 {
    /// Every tryte of the sequence lies in `0..=26`.
    pub open spec fn is_valid(&self) -> bool {
        all_valid(self@)
    }

    /// A sequence of trytes drawn from the generator of the calling thread.
    /// Which sequence comes is open; it is valid, so packing and unpacking
    /// it gives it back.
    pub fn random() -> (seq: T721)
        ensures
            seq@.len() == 80,
            seq.is_valid(),
            all_nominal(pack_all(seq@)),
            unpack_all(pack_all(seq@)) == seq@,
    {
        let seq = T721::from_tryte_array(T721::random_tryte_array());
        proof {
            lemma_unpack_pack_all(seq@);
        }
        seq
    }

    /// A flat array of trytes drawn from the generator of the calling
    /// thread, each in `0..=26`.
    pub fn random_tryte_array() -> (raw: [u8; 240])
        ensures
            raw@.len() == 240,
            all_trytes(raw@),
    {
        random_trytes()
    }

    /// Packs the sequence group by group, each pair at the index of its
    /// group. Unpacking the result of a valid sequence gives it back.
    pub fn encode(&self) -> (packed: B1296)
        ensures
            packed@.len() == 80,
            packed@ == pack_all(self@),
            self.is_valid() ==> packed.is_nominal() && unpack_all(packed@) == self@,
    {
        proof {
            if self.is_valid() {
                lemma_unpack_pack_all(self@);
            }
        }
        B1296(pack_groups(&self.0))
    }

    /// Reads a sequence from a string over the alphabet `'9'`, `'A'` to
    /// `'Z'`, one tryte for each character from the left. A string shorter
    /// than 240 characters is padded on the right with zero trytes; what
    /// follows the first 240 characters is not read.
    pub fn from_human_readable(s: &str) -> (seq: T721)
        ensures
            seq@.len() == 80,
            seq@ == readable_groups(s@, 80),
            is_readable(s@, 240) ==> seq.is_valid(),
    {
        proof {
            if is_readable(s@, 240) {
                lemma_readable_valid(s@, 80);
            }
        }
        T721(read_groups(s))
    }

    /// Cuts a flat array of trytes into groups: group `i` holds the entries
    /// `3 * i`, `3 * i + 1` and `3 * i + 2`. No entry is checked; the
    /// sequence is valid exactly when every entry is a tryte in range.
    pub fn from_tryte_array(array: [u8; 240]) -> (seq: T721)
        ensures
            seq@.len() == 80,
            seq@ == regroup(array@),
            seq.is_valid() <==> all_trytes(array@),
    {
        proof {
            lemma_regroup_valid(array@);
        }
        T721(group_trytes(&array))
    }

    /// The trytes of the sequence as a flat array, in order.
    pub fn as_tryte_array(&self) -> (raw: [u8; 240])
        ensures
            raw@.len() == 240,
            raw@ == flatten(self@),
            all_trytes(raw@) <==> self.is_valid(),
    {
        let raw: [u8; 240] = flatten_groups(&self.0);
        proof {
            lemma_flatten_valid(self@);
        }
        raw
    }
}

impl B1296 {
    /// Every pair is one that packing a valid group can give.
    pub open spec fn is_nominal(&self) -> bool {
        all_nominal(self@)
    }

    /// Unpacks the sequence pair by pair, each group at the index of its
    /// pair. Defined on every array of bytes; packing the result of a
    /// nominal sequence gives it back.
    pub fn decode(&self) -> (seq: T721)
        ensures
            seq@.len() == 80,
            seq@ == unpack_all(self@),
            self.is_nominal() ==> seq.is_valid() && pack_all(seq@) == self@,
    {
        proof {
            if self.is_nominal() {
                lemma_pack_unpack_all(self@);
            }
        }
        T721(unpack_pairs(&self.0))
    }
}

} // verus!
