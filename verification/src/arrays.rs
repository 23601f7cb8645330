//! The loops behind every size of sequence, on arrays of any length.

use vstd::prelude::*;
use vstd::string::StrSliceExecFns;
use rand::rngs::ThreadRng;
use crate::entropy::{draw_in_range, thread_generator};
use crate::layout::{
    all_trytes, char_or_pad, flatten, pack_all, readable_groups, regroup, unpack_all,
};
use crate::packer::{B16, T9};

verus! {

/// Packs each group of an array, index by index.
pub(crate) fn pack_groups<const L: usize>(groups: &[T9; L]) -> (pairs: [B16; L])
    ensures
        pairs@ == pack_all(groups@),
{
    let mut pairs: [B16; L] = [B16(0, 0); L];
    let mut i: usize = 0;
    while i < L
        invariant
            i <= L,
            forall|j: int| 0 <= j < i ==> pairs@[j] == groups@[j].packed(),
        decreases L - i,
    {
        pairs[i] = groups[i].encode();
        i += 1;
    }
    assert(pairs@ =~= pack_all(groups@));
    pairs
}

/// Unpacks each pair of an array, index by index.
pub(crate) fn unpack_pairs<const L: usize>(pairs: &[B16; L]) -> (groups: [T9; L])
    ensures
        groups@ == unpack_all(pairs@),
{
    let mut groups: [T9; L] = [T9(0, 0, 0); L];
    let mut i: usize = 0;
    while i < L
        invariant
            i <= L,
            forall|j: int| 0 <= j < i ==> groups@[j] == pairs@[j].unpacked(),
        decreases L - i,
    {
        groups[i] = pairs[i].decode();
        i += 1;
    }
    assert(groups@ =~= unpack_all(pairs@));
    groups
}

/// Cuts a flat array of `M` trytes into `L` groups of three.
pub(crate) fn group_trytes<const M: usize, const L: usize>(raw: &[u8; M]) -> (groups: [T9; L])
    requires
        M == 3 * L,
    ensures
        groups@ == regroup(raw@),
{
    let mut groups: [T9; L] = [T9(0, 0, 0); L];
    let mut i: usize = 0;
    while i < L
        invariant
            M == 3 * L,
            i <= L,
            forall|j: int|
                0 <= j < i ==> groups@[j] == T9(raw@[3 * j], raw@[3 * j + 1], raw@[3 * j + 2]),
        decreases L - i,
    {
        groups[i] = T9(raw[i * 3], raw[i * 3 + 1], raw[i * 3 + 2]);
        i += 1;
    }
    assert(groups@ =~= regroup(raw@));
    groups
}

/// Lays the trytes of `L` groups out in a flat array of `M` entries.
pub(crate) fn flatten_groups<const L: usize, const M: usize>(groups: &[T9; L]) -> (raw: [u8; M])
    requires
        M == 3 * L,
    ensures
        raw@ == flatten(groups@),
{
    let mut raw: [u8; M] = [0u8; M];
    let mut i: usize = 0;
    while i < L
        invariant
            M == 3 * L,
            i <= L,
            forall|k: int| 0 <= k < 3 * i ==> raw@[k] == flatten(groups@)[k],
        decreases L - i,
    {
        let group: T9 = groups[i];
        raw[i * 3] = group.0;
        raw[i * 3 + 1] = group.1;
        raw[i * 3 + 2] = group.2;
        i += 1;
    }
    assert(raw@ =~= flatten(groups@));
    raw
}

/// The character at a position of a string of `len` characters, and `'9'`
/// past its end.
fn char_at_or_pad(text: &str, len: usize, k: usize) -> (c: char)
    requires
        len == text@.len(),
    ensures
        c == char_or_pad(text@, k as int),
{
    if k < len {
        text.get_char(k)
    } else {
        '9'
    }
}

/// Reads `L` groups from a string, three characters for each group.
pub(crate) fn read_groups<const L: usize>(text: &str) -> (groups: [T9; L])
    requires
        3 * L <= usize::MAX,
    ensures
        groups@ == readable_groups(text@, L as nat),
{
    let len: usize = text.unicode_len();
    let mut groups: [T9; L] = [T9(0, 0, 0); L];
    let mut i: usize = 0;
    while i < L
        invariant
            3 * L <= usize::MAX,
            len == text@.len(),
            i <= L,
            forall|j: int| 0 <= j < i ==> groups@[j] == readable_groups(text@, L as nat)[j],
        decreases L - i,
    {
        let c0: char = char_at_or_pad(text, len, i * 3);
        let c1: char = char_at_or_pad(text, len, i * 3 + 1);
        let c2: char = char_at_or_pad(text, len, i * 3 + 2);
        groups[i] = T9::from_human_readable(c0, c1, c2);
        i += 1;
    }
    assert(groups@ =~= readable_groups(text@, L as nat));
    groups
}

/// The byte that a drawn number is stored as: its lowest eight bits, which
/// is the number itself wherever it fits in a byte.
fn byte_of_draw(value: i32) -> (byte: u8)
    ensures
        byte == value as int % 256,
        0 <= value <= 255 ==> byte == value,
{
    let byte: u8 = #[verifier::truncate] (value as u8);
    assert(byte == value as int % 256) by (bit_vector)
        requires
            byte == value as u8,
    ;
    byte
}

/// Draws one tryte from the generator: a number from 0 up to, and without,
/// 27, stored as a byte. Which tryte comes is open; it is in range.
fn random_tryte(rng: &mut ThreadRng) -> (tryte: u8)
    ensures
        tryte <= 26,
{
    let value: i32 = draw_in_range(rng, 0, 27);
    byte_of_draw(value)
}

/// Fills an array with trytes drawn from the generator of the calling
/// thread. Which trytes come is open; each is in range.
pub(crate) fn random_trytes<const M: usize>() -> (raw: [u8; M])
    ensures
        all_trytes(raw@),
{
    let mut rng: ThreadRng = thread_generator();
    let mut raw: [u8; M] = [0u8; M];
    let mut i: usize = 0;
    while i < M
        invariant
            i <= M,
            forall|k: int| 0 <= k < i ==> raw@[k] <= 26,
        decreases M - i,
    {
        raw[i] = random_tryte(&mut rng);
        i += 1;
    }
    raw
}

} // verus!
