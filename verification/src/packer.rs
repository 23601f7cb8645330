//! The elementary transform: three trytes in two bytes, and back.

use vstd::prelude::*;

verus! {

/// A group of three trytes, nine trits in all.
#[derive(Copy, Clone, Debug, PartialEq, Eq, Structural)]
pub struct T9(pub u8, pub u8, pub u8);

/// The two bytes that hold one group of three trytes.
#[derive(Copy, Clone, Debug, PartialEq, Eq, Structural)]
pub struct B16(pub u8, pub u8);

/// The byte that unsigned 8-bit arithmetic leaves of an integer.
pub open spec fn wrap_byte(x: int) -> u8 {
    (x % 256) as u8
}

/// The tryte that a character of the readable alphabet stands for: `'9'` is
/// zero and `'A'` to `'Z'` are 1 to 26. Any other character gives its code
/// less 64, as 8-bit arithmetic leaves it; nothing is rejected.
pub open spec fn tryte_of_char(c: char) -> u8 {
    if c == '9' {
        0
    } else {
        wrap_byte(c as int - 64)
    }
}

/// Whether a character belongs to the readable alphabet.
pub open spec fn is_alphabet_char(c: char) -> bool {
    c == '9' || ('A' <= c && c <= 'Z')
}

impl T9 {
    /// Every tryte of the group lies in `0..=26`.
    pub open spec fn is_valid(self) -> bool {
        self.0 <= 26 && self.1 <= 26 && self.2 <= 26
    }

    /// The packed form of the group. The third tryte is split into its
    /// lowest trit, stored above the first tryte, and its two upper trits,
    /// stored above the second.
    pub open spec fn packed(self) -> B16 {
        B16(
            wrap_byte(self.0 + 27 * (self.2 % 3)),
            wrap_byte(self.1 + 27 * (self.2 / 3)),
        )
    }

    /// Packs the group into two bytes. On a valid group nothing wraps, and
    /// unpacking the result gives the group back.
    pub fn encode(&self) -> (b: B16)
        ensures
            b == self.packed(),
            self.is_valid() ==> b.0 == self.0 + 27 * (self.2 % 3),
            self.is_valid() ==> b.1 == self.1 + 27 * (self.2 / 3),
            self.is_valid() ==> b.is_nominal() && b.unpacked() == *self,
    {
        let low: u8 = 27 * (self.2 % 3);
        let high: u8 = 27u8.wrapping_mul(self.2 / 3);
        let b0: u8 = self.0.wrapping_add(low);
        let b1: u8 = self.1.wrapping_add(high);
        proof {
            assert(high == (27 * (self.2 / 3)) % 256);
            lemma_wrapped_sum(self.0 as int, 27 * (self.2 % 3));
            lemma_wrapped_sum(self.1 as int, 27 * (self.2 / 3));
            if self.is_valid() {
                lemma_unpack_pack(*self);
            }
        }
        B16(b0, b1)
    }

    /// Reads one group from three characters of the readable alphabet.
    pub fn from_human_readable(c0: char, c1: char, c2: char) -> (t: T9)
        ensures
            t == T9(tryte_of_char(c0), tryte_of_char(c1), tryte_of_char(c2)),
            is_alphabet_char(c0) && is_alphabet_char(c1) && is_alphabet_char(c2)
                ==> t.is_valid(),
    {
        T9(normalize_human_char(c0), normalize_human_char(c1), normalize_human_char(c2))
    }
}

impl B16 {
    /// The pair is one that packing a valid group can give.
    pub open spec fn is_nominal(self) -> bool {
        self.0 <= 80 && self.1 <= 242
    }

    /// The group that the pair unpacks to.
    pub open spec fn unpacked(self) -> T9 {
        T9(
            (self.0 % 27) as u8,
            (self.1 % 27) as u8,
            (self.0 / 27 + 3 * (self.1 / 27)) as u8,
        )
    }

    /// Unpacks the pair into three trytes. Defined on every pair of bytes;
    /// the first two trytes are always in range. On a nominal pair the third
    /// is in range too, and packing the result gives the pair back.
    pub fn decode(&self) -> (t: T9)
        ensures
            t == self.unpacked(),
            t.0 == self.0 % 27,
            t.1 == self.1 % 27,
            t.2 == self.0 / 27 + 3 * (self.1 / 27),
            t.0 <= 26 && t.1 <= 26,
            self.is_nominal() ==> t.is_valid() && t.packed() == *self,
    {
        proof {
            if self.is_nominal() {
                lemma_pack_unpack(*self);
            }
        }
        T9(self.0 % 27, self.1 % 27, self.0 / 27 + 3 * (self.1 / 27))
    }
}

/// The tryte of one character.
pub fn normalize_human_char(c: char) -> (t: u8)
    ensures
        t == tryte_of_char(c),
        is_alphabet_char(c) ==> t <= 26,
        'A' <= c && c <= 'Z' ==> t == c as int - 'A' as int + 1,
{
    if c == '9' {
        0
    } else {
        let low: u8 = (c as u32 % 256) as u8;
        proof {
            lemma_shifted_byte(c as int, low as int);
        }
        low.wrapping_sub('A' as u8).wrapping_add(1)
    }
}

/// An integer whose lowest byte is `low`, moved down by 64 in 8-bit
/// arithmetic, is `low` moved down by 64, wrapping below zero.
proof fn lemma_shifted_byte(code: int, low: int)
    requires
        0 <= code,
        low == code % 256,
    ensures
        wrap_byte(code - 64) == if low >= 64 {
            low - 64
        } else {
            low + 192
        },
{
    let q: int = code / 256;
    assert(code == 256 * q + low && 0 <= low < 256);
    if low >= 64 {
        assert(code - 64 == 256 * q + (low - 64));
        assert((code - 64) % 256 == low - 64);
    } else {
        assert(code - 64 == 256 * (q - 1) + (low + 192));
        assert((code - 64) % 256 == low + 192);
    }
}

/// A byte added to an integer, in 8-bit arithmetic: the integer may be
/// reduced to a byte first, and the sum wraps at most once.
proof fn lemma_wrapped_sum(a: int, b: int)
    requires
        0 <= a < 256,
        0 <= b,
    ensures
        wrap_byte(a + b) == if a + b % 256 > 255 {
            a + b % 256 - 256
        } else {
            a + b % 256
        },
{
    let q: int = b / 256;
    let r: int = b % 256;
    assert(b == 256 * q + r && 0 <= r < 256);
    if a + r > 255 {
        assert(a + b == 256 * (q + 1) + (a + r - 256));
        assert((a + b) % 256 == a + r - 256);
    } else {
        assert(a + b == 256 * q + (a + r));
        assert((a + b) % 256 == a + r);
    }
}

/// A number written with a lowest digit below 27 and the rest above it
/// has that digit as its remainder by 27 and the rest as its quotient.
proof fn lemma_digits_27(low: int, rest: int)
    requires
        0 <= low < 27,
        0 <= rest,
    ensures
        (low + 27 * rest) % 27 == low,
        (low + 27 * rest) / 27 == rest,
{
}

/// The same for a lowest digit below 3.
proof fn lemma_digits_3(low: int, rest: int)
    requires
        0 <= low < 3,
        0 <= rest,
    ensures
        (low + 3 * rest) % 3 == low,
        (low + 3 * rest) / 3 == rest,
{
}

/// Unpacking inverts packing: a valid group that is packed and unpacked
/// again is the group itself, and its packed form is nominal.
pub proof fn lemma_unpack_pack(t: T9)
    requires
        t.is_valid(),
    ensures
        t.packed().is_nominal(),
        t.packed().0 == t.0 + 27 * (t.2 % 3),
        t.packed().1 == t.1 + 27 * (t.2 / 3),
        t.packed().unpacked() == t,
{
    let trit: int = t.2 as int % 3;
    let rest: int = t.2 as int / 3;
    assert(0 <= trit < 3 && 0 <= rest <= 8 && t.2 == trit + 3 * rest);
    let b0: int = t.0 + 27 * trit;
    let b1: int = t.1 + 27 * rest;
    assert(0 <= b0 <= 80 && 0 <= b1 <= 242);
    assert(wrap_byte(b0) == b0 && wrap_byte(b1) == b1);
    lemma_digits_27(t.0 as int, trit);
    lemma_digits_27(t.1 as int, rest);
    assert(t.packed().0 == b0 && t.packed().1 == b1);
    assert(t.packed().unpacked().0 == t.0);
    assert(t.packed().unpacked().1 == t.1);
    assert(t.packed().unpacked().2 == t.2);
}

/// Packing inverts unpacking on nominal pairs: a nominal pair unpacks to a
/// valid group whose packed form is the pair.
pub proof fn lemma_pack_unpack(b: B16)
    requires
        b.is_nominal(),
    ensures
        b.unpacked().is_valid(),
        b.unpacked().packed() == b,
{
    let t0: int = b.0 as int % 27;
    let trit: int = b.0 as int / 27;
    let t1: int = b.1 as int % 27;
    let rest: int = b.1 as int / 27;
    assert(0 <= t0 < 27 && 0 <= trit < 3 && b.0 == t0 + 27 * trit);
    assert(0 <= t1 < 27 && 0 <= rest <= 8 && b.1 == t1 + 27 * rest);
    let t2: int = trit + 3 * rest;
    assert(0 <= t2 <= 26);
    let t = b.unpacked();
    assert(t.0 == t0 && t.1 == t1 && t.2 == t2);
    lemma_digits_3(trit, rest);
    assert(t.2 % 3 == trit && t.2 / 3 == rest);
    assert(wrap_byte(b.0 as int) == b.0 && wrap_byte(b.1 as int) == b.1);
    assert(t.packed().0 == b.0);
    assert(t.packed().1 == b.1);
}

/// Packing is injective on valid groups.
pub proof fn lemma_pack_injective(s: T9, t: T9)
    requires
        s.is_valid(),
        t.is_valid(),
        s.packed() == t.packed(),
    ensures
        s == t,
{
    lemma_unpack_pack(s);
    lemma_unpack_pack(t);
}

/// The group of zero trytes packs to the pair of zero bytes, which unpacks
/// to the group of zero trytes.
pub proof fn lemma_zero_group()
    ensures
        T9(0, 0, 0).packed() == B16(0, 0),
        B16(0, 0).unpacked() == T9(0, 0, 0),
{
}

/// Every character of the readable alphabet stands for a tryte in range,
/// and the letters stand for 1 to 26 in order.
pub proof fn lemma_alphabet_trytes(c: char)
    requires
        is_alphabet_char(c),
    ensures
        tryte_of_char(c) <= 26,
        c == '9' <==> tryte_of_char(c) == 0,
        c != '9' ==> tryte_of_char(c) == c as int - 'A' as int + 1,
{
}

} // verus!
