//! Sequences of groups as mathematical sequences: what packing, unpacking,
//! flattening, regrouping and reading a string mean on them, and the laws
//! that relate these.

use vstd::prelude::*;
use crate::packer::{
    is_alphabet_char, lemma_alphabet_trytes, lemma_pack_unpack, lemma_unpack_pack, tryte_of_char,
    B16, T9,
};

verus! {

/// Every entry is a tryte in `0..=26`.
pub open spec fn all_trytes(raw: Seq<u8>) -> bool {
    forall|k: int| 0 <= k < raw.len() ==> #[trigger] raw[k] <= 26
}

/// Every group holds trytes in range only.
pub open spec fn all_valid(groups: Seq<T9>) -> bool {
    forall|i: int| 0 <= i < groups.len() ==> (#[trigger] groups[i]).is_valid()
}

/// Every pair is one that packing a valid group can give.
pub open spec fn all_nominal(pairs: Seq<B16>) -> bool {
    forall|i: int| 0 <= i < pairs.len() ==> (#[trigger] pairs[i]).is_nominal()
}

/// The tryte at position 0, 1 or 2 of a group.
pub open spec fn tryte_at(group: T9, position: int) -> u8 {
    if position == 0 {
        group.0
    } else if position == 1 {
        group.1
    } else {
        group.2
    }
}

/// Each group packed, at the index it had.
pub open spec fn pack_all(groups: Seq<T9>) -> Seq<B16> {
    Seq::new(groups.len(), |i: int| groups[i].packed())
}

/// Each pair unpacked, at the index it had.
pub open spec fn unpack_all(pairs: Seq<B16>) -> Seq<T9> {
    Seq::new(pairs.len(), |i: int| pairs[i].unpacked())
}

/// The trytes of the groups in order, three for each group.
pub open spec fn flatten(groups: Seq<T9>) -> Seq<u8> {
    Seq::new(3 * groups.len(), |k: int| tryte_at(groups[k / 3], k % 3))
}

/// A flat sequence of trytes cut into groups of three. Entries that do not
/// fill a last group are left out.
pub open spec fn regroup(raw: Seq<u8>) -> Seq<T9> {
    Seq::new(raw.len() / 3, |i: int| T9(raw[3 * i], raw[3 * i + 1], raw[3 * i + 2]))
}

/// The character at a position of a string, and `'9'` past its end.
pub open spec fn char_or_pad(text: Seq<char>, k: int) -> char {
    if 0 <= k < text.len() {
        text[k]
    } else {
        '9'
    }
}

/// The first `count` trytes that a string stands for, one for each
/// character from the left. A short string is padded on the right with
/// zero trytes and a long one is cut.
pub open spec fn readable_trytes(text: Seq<char>, count: nat) -> Seq<u8> {
    Seq::new(count, |k: int| tryte_of_char(char_or_pad(text, k)))
}

/// The groups that a string stands for, when `count` groups are wanted.
pub open spec fn readable_groups(text: Seq<char>, count: nat) -> Seq<T9> {
    regroup(readable_trytes(text, 3 * count))
}

/// The first `count` characters of the string, as far as it has them, all
/// belong to the readable alphabet.
pub open spec fn is_readable(text: Seq<char>, count: nat) -> bool {
    forall|k: int| 0 <= k < count ==> is_alphabet_char(#[trigger] char_or_pad(text, k))
}

/// A sequence of `count` groups of zero trytes.
pub open spec fn zero_groups(count: nat) -> Seq<T9> {
    Seq::new(count, |i: int| T9(0, 0, 0))
}

/// A sequence of `count` pairs of zero bytes.
pub open spec fn zero_pairs(count: nat) -> Seq<B16> {
    Seq::new(count, |i: int| B16(0, 0))
}

/// Flattening and regrouping a sequence of groups gives the same groups.
pub proof fn lemma_regroup_flatten(groups: Seq<T9>)
    ensures
        flatten(groups).len() == 3 * groups.len(),
        regroup(flatten(groups)) == groups,
{
    assert(regroup(flatten(groups)) =~= groups);
}

/// Regrouping and flattening a flat sequence whose length is a multiple of
/// three gives the same flat sequence.
pub proof fn lemma_flatten_regroup(raw: Seq<u8>)
    requires
        raw.len() % 3 == 0,
    ensures
        regroup(raw).len() * 3 == raw.len(),
        flatten(regroup(raw)) == raw,
{
    assert(flatten(regroup(raw)) =~= raw);
}

/// A flat sequence holds trytes in range only exactly when its groups do.
pub proof fn lemma_regroup_valid(raw: Seq<u8>)
    requires
        raw.len() % 3 == 0,
    ensures
        all_trytes(raw) <==> all_valid(regroup(raw)),
{
    let groups = regroup(raw);
    if all_trytes(raw) {
        assert forall|i: int| 0 <= i < groups.len() implies (#[trigger] groups[i]).is_valid() by {
            assert(raw[3 * i] <= 26 && raw[3 * i + 1] <= 26 && raw[3 * i + 2] <= 26);
        }
    }
    if all_valid(groups) {
        assert forall|k: int| 0 <= k < raw.len() implies #[trigger] raw[k] <= 26 by {
            assert(groups[k / 3].is_valid());
        }
    }
}

/// Groups hold trytes in range only exactly when their flat form does.
pub proof fn lemma_flatten_valid(groups: Seq<T9>)
    ensures
        all_trytes(flatten(groups)) <==> all_valid(groups),
{
    let raw = flatten(groups);
    if all_trytes(raw) {
        assert forall|i: int| 0 <= i < groups.len() implies (#[trigger] groups[i]).is_valid() by {
            assert(raw[3 * i] <= 26 && raw[3 * i + 1] <= 26 && raw[3 * i + 2] <= 26);
        }
    }
    if all_valid(groups) {
        assert forall|k: int| 0 <= k < raw.len() implies #[trigger] raw[k] <= 26 by {
            assert(groups[k / 3].is_valid());
        }
    }
}

/// Packing valid groups and unpacking the pairs gives the groups back, and
/// every pair on the way is nominal.
pub proof fn lemma_unpack_pack_all(groups: Seq<T9>)
    requires
        all_valid(groups),
    ensures
        pack_all(groups).len() == groups.len(),
        all_nominal(pack_all(groups)),
        unpack_all(pack_all(groups)) == groups,
{
    assert forall|i: int| 0 <= i < groups.len() implies (#[trigger] pack_all(groups)[i]).is_nominal()
        && pack_all(groups)[i].unpacked() == groups[i] by {
        assert(groups[i].is_valid());
        lemma_unpack_pack(groups[i]);
    }
    assert(unpack_all(pack_all(groups)) =~= groups);
}

/// Unpacking nominal pairs and packing the groups gives the pairs back, and
/// every group on the way is valid.
pub proof fn lemma_pack_unpack_all(pairs: Seq<B16>)
    requires
        all_nominal(pairs),
    ensures
        unpack_all(pairs).len() == pairs.len(),
        all_valid(unpack_all(pairs)),
        pack_all(unpack_all(pairs)) == pairs,
{
    assert forall|i: int| 0 <= i < pairs.len() implies (#[trigger] unpack_all(pairs)[i]).is_valid()
        && unpack_all(pairs)[i].packed() == pairs[i] by {
        assert(pairs[i].is_nominal());
        lemma_pack_unpack(pairs[i]);
    }
    assert(pack_all(unpack_all(pairs)) =~= pairs);
}

/// The round trip of a whole sequence: a flat sequence of trytes in range,
/// of a length that is a multiple of three, comes back unchanged when it is
/// regrouped, packed, unpacked and flattened.
pub proof fn lemma_sequence_round_trip(raw: Seq<u8>)
    requires
        raw.len() % 3 == 0,
        all_trytes(raw),
    ensures
        flatten(unpack_all(pack_all(regroup(raw)))) == raw,
{
    lemma_regroup_valid(raw);
    lemma_unpack_pack_all(regroup(raw));
    lemma_flatten_regroup(raw);
}

/// Groups of zero trytes pack to pairs of zero bytes, and these unpack to
/// groups of zero trytes, whatever the length.
pub proof fn lemma_zero_sequence(count: nat)
    ensures
        pack_all(zero_groups(count)) == zero_pairs(count),
        unpack_all(zero_pairs(count)) == zero_groups(count),
        flatten(zero_groups(count)) == Seq::new(3 * count, |k: int| 0u8),
{
    assert(pack_all(zero_groups(count)) =~= zero_pairs(count));
    assert(unpack_all(zero_pairs(count)) =~= zero_groups(count));
    assert(flatten(zero_groups(count)) =~= Seq::new(3 * count, |k: int| 0u8));
}

/// What a string reads as, tryte by tryte: the groups have `count` entries
/// and their flat form is the string's padded or cut trytes.
pub proof fn lemma_readable_groups(text: Seq<char>, count: nat)
    ensures
        readable_groups(text, count).len() == count,
        flatten(readable_groups(text, count)) == readable_trytes(text, 3 * count),
{
    lemma_flatten_regroup(readable_trytes(text, 3 * count));
}

/// A string whose characters, as far as they are read, belong to the
/// alphabet reads as valid groups.
pub proof fn lemma_readable_valid(text: Seq<char>, count: nat)
    requires
        is_readable(text, 3 * count),
    ensures
        all_valid(readable_groups(text, count)),
{
    let raw = readable_trytes(text, 3 * count);
    assert forall|k: int| 0 <= k < raw.len() implies #[trigger] raw[k] <= 26 by {
        let c = char_or_pad(text, k);
        assert(is_alphabet_char(c));
        lemma_alphabet_trytes(c);
        assert(raw[k] == tryte_of_char(c));
    }
    lemma_regroup_valid(raw);
}

/// A string made of the character `'9'` alone, or an empty one, reads as
/// groups of zero trytes.
pub proof fn lemma_readable_nines(text: Seq<char>, count: nat)
    requires
        forall|k: int| 0 <= k < text.len() ==> text[k] == '9',
    ensures
        readable_groups(text, count) == zero_groups(count),
{
    assert(readable_groups(text, count) =~= zero_groups(count));
}

} // verus!
