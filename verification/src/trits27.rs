//! Sequences of 27 trits: 3 groups, 9 trytes, 6 bytes when packed.

use vstd::prelude::*;
use crate::arrays::{
    flatten_groups, group_trytes, pack_groups, random_trytes, read_groups, unpack_pairs,
};
use crate::layout::{
    all_nominal, all_trytes, all_valid, flatten, is_readable, lemma_flatten_valid,
    lemma_pack_unpack_all, lemma_readable_valid, lemma_regroup_valid, lemma_unpack_pack_all,
    pack_all, readable_groups, regroup, unpack_all,
};
use crate::packer::{B16, T9};

verus! {

/// A sequence of 3 groups of three trytes.
pub struct T27(pub [T9; 3]);

/// The packed form of a sequence of 3 groups: 3 pairs of bytes.
pub struct B48(pub [B16; 3]);

impl View for T27 {
    type V = Seq<T9>;

    open spec fn view(&self) -> Seq<T9> {
        self.0@
    }
}

impl View for B48 {
    type V = Seq<B16>;

    open spec fn view(&self) -> Seq<B16> {
        self.0@
    }
}

impl T27 {
    /// Every tryte of the sequence lies in `0..=26`.
    pub open spec fn is_valid(&self) -> bool {
        all_valid(self@)
    }

    /// A sequence of trytes drawn from the generator of the calling thread.
    /// Which sequence comes is open; it is valid, so packing and unpacking
    /// it gives it back.
    pub fn random() -> (seq: T27)
        ensures
            seq@.len() == 3,
            seq.is_valid(),
            all_nominal(pack_all(seq@)),
            unpack_all(pack_all(seq@)) == seq@,
    {
        let seq = T27::from_tryte_array(T27::random_tryte_array());
        proof {
            lemma_unpack_pack_all(seq@);
        }
        seq
    }

    /// A flat array of trytes drawn from the generator of the calling
    /// thread, each in `0..=26`.
    pub fn random_tryte_array() -> (raw: [u8; 9])
        ensures
            raw@.len() == 9,
            all_trytes(raw@),
    {
        random_trytes()
    }

    /// Packs the sequence group by group, each pair at the index of its
    /// group. Unpacking the result of a valid sequence gives it back.
    pub fn encode(&self) -> (packed: B48)
        ensures
            packed@.len() == 3,
            packed@ == pack_all(self@),
            self.is_valid() ==> packed.is_nominal() && unpack_all(packed@) == self@,
    {
        proof {
            if self.is_valid() {
                lemma_unpack_pack_all(self@);
            }
        }
        B48(pack_groups(&self.0))
    }

    /// Reads a sequence from a string over the alphabet `'9'`, `'A'` to
    /// `'Z'`, one tryte for each character from the left. A string shorter
    /// than 9 characters is padded on the right with zero trytes; what
    /// follows the first 9 characters is not read.
    pub fn from_human_readable(s: &str) -> (seq: T27)
        ensures
            seq@.len() == 3,
            seq@ == readable_groups(s@, 3),
            is_readable(s@, 9) ==> seq.is_valid(),
    {
        proof {
            if is_readable(s@, 9) {
                lemma_readable_valid(s@, 3);
            }
        }
        T27(read_groups(s))
    }

    /// Cuts a flat array of trytes into groups: group `i` holds the entries
    /// `3 * i`, `3 * i + 1` and `3 * i + 2`. No entry is checked; the
    /// sequence is valid exactly when every entry is a tryte in range.
    pub fn from_tryte_array(array: [u8; 9]) -> (seq: T27)
        ensures
            seq@.len() == 3,
            seq@ == regroup(array@),
            seq.is_valid() <==> all_trytes(array@),
    {
        proof {
            lemma_regroup_valid(array@);
        }
        T27(group_trytes(&array))
    }

    /// The trytes of the sequence as a flat array, in order.
    pub fn as_tryte_array(&self) -> (raw: [u8; 9])
        ensures
            raw@.len() == 9,
            raw@ == flatten(self@),
            all_trytes(raw@) <==> self.is_valid(),
    {
        let raw: [u8; 9] = flatten_groups(&self.0);
        proof {
            lemma_flatten_valid(self@);
        }
        raw
    }
}

impl B48 {
    /// Every pair is one that packing a valid group can give.
    pub open spec fn is_nominal(&self) -> bool {
        all_nominal(self@)
    }

    /// Unpacks the sequence pair by pair, each group at the index of its
    /// pair. Defined on every array of bytes; packing the result of a
    /// nominal sequence gives it back.
    pub fn decode(&self) -> (seq: T27)
        ensures
            seq@.len() == 3,
            seq@ == unpack_all(self@),
            self.is_nominal() ==> seq.is_valid() && pack_all(seq@) == self@,
    {
        proof {
            if self.is_nominal() {
                lemma_pack_unpack_all(self@);
            }
        }
        T27(unpack_pairs(&self.0))
    }
}

} // verus!
