use trinary::packer::{normalize_human_char, B16, T9};
use trinary::trits243::{B432, T243};
use trinary::trits27::{B48, T27};
use trinary::trits721::{B1296, T721};
use trinary::trits81::{B144, T81};

#[test]
fn test_t9_encoding_decoding() {
    let t9s: &[T9] = &T27::random().0;
    for &a in t9s.iter() {
        let b = a.encode().decode();
        assert_eq!([a.0, a.1, a.2], [b.0, b.1, b.2]);
    }
}

#[test]
fn test_from_human_readable() {
    let t721 = T721::from_human_readable("AB9C").encode().decode();
    assert_eq!([1, 2, 0, 3, 0] as [u8; 5], t721.as_tryte_array()[0..5]);
    let t243 = T243::from_human_readable("AB9C").encode().decode();
    assert_eq!([1, 2, 0, 3, 0] as [u8; 5], t243.as_tryte_array()[0..5]);
    let t81 = T81::from_human_readable("AB9C").encode().decode();
    assert_eq!([1, 2, 0, 3, 0] as [u8; 5], t81.as_tryte_array()[0..5]);
    let t27 = T27::from_human_readable("AB9C").encode().decode();
    assert_eq!([1, 2, 0, 3, 0] as [u8; 5], t27.as_tryte_array()[0..5]);
}

#[test]
fn test_tryte_array() {
    let raw27 = T27::random_tryte_array();
    assert_eq!(raw27[0..9], T27::from_tryte_array(raw27).as_tryte_array()[0..9]);
    let raw81 = T81::random_tryte_array();
    assert_eq!(raw81[0..27], T81::from_tryte_array(raw81).as_tryte_array()[0..27]);
    let raw243 = T243::random_tryte_array();
    assert_eq!(raw243[0..81], T243::from_tryte_array(raw243).as_tryte_array()[0..81]);
    let raw721 = T721::random_tryte_array();
    assert_eq!(raw721[0..240], T721::from_tryte_array(raw721).as_tryte_array()[0..240]);
}

#[test]
fn test_encode_decode() {
    let t27 = T27::random();
    let d27 = t27.encode().decode();
    assert_eq!(t27.as_tryte_array()[0..9], d27.as_tryte_array()[0..9]);
    let t81 = T81::random();
    let d81 = t81.encode().decode();
    assert_eq!(t81.as_tryte_array()[0..27], d81.as_tryte_array()[0..27]);
    let t243 = T243::random();
    let d243 = t243.encode().decode();
    assert_eq!(t243.as_tryte_array()[0..81], d243.as_tryte_array()[0..81]);
    let t721 = T721::random();
    let d721 = t721.encode().decode();
    assert_eq!(t721.as_tryte_array()[0..240], d721.as_tryte_array()[0..240]);
}

#[test]
fn elementary_round_trip_is_exhaustive() {
    let mut seen = vec![false; 81 * 243];
    for t0 in 0u8..27 {
        for t1 in 0u8..27 {
            for t2 in 0u8..27 {
                let b = T9(t0, t1, t2).encode();
                assert!(b.0 <= 80 && b.1 <= 242);
                assert_eq!(b.0, t0 + 27 * (t2 % 3));
                assert_eq!(b.1, t1 + 27 * (t2 / 3));
                assert_eq!(b.decode(), T9(t0, t1, t2));
                let slot = b.0 as usize * 243 + b.1 as usize;
                assert!(!seen[slot]);
                seen[slot] = true;
            }
        }
    }
    assert_eq!(seen.iter().filter(|s| **s).count(), 19683);
}

#[test]
fn nominal_pairs_round_trip() {
    for b0 in 0u8..=80 {
        for b1 in 0u8..=242 {
            let t = B16(b0, b1).decode();
            assert!(t.0 <= 26 && t.1 <= 26 && t.2 <= 26);
            assert_eq!(t.encode(), B16(b0, b1));
        }
    }
}

#[test]
fn encode_exact_values() {
    assert_eq!(T9(0, 0, 0).encode(), B16(0, 0));
    assert_eq!(T9(26, 26, 26).encode(), B16(80, 242));
    assert_eq!(T9(5, 26, 17).encode(), B16(59, 161));
    assert_eq!(T9(1, 2, 0).encode(), B16(1, 2));
    assert_eq!(T9(3, 0, 0).encode(), B16(3, 0));
    assert_eq!(T9(0, 0, 1).encode(), B16(27, 0));
    assert_eq!(T9(0, 0, 3).encode(), B16(0, 27));
}

#[test]
fn decode_exact_values() {
    assert_eq!(B16(0, 0).decode(), T9(0, 0, 0));
    assert_eq!(B16(80, 242).decode(), T9(26, 26, 26));
    assert_eq!(B16(59, 161).decode(), T9(5, 26, 17));
    assert_eq!(B16(27, 0).decode(), T9(0, 0, 1));
    assert_eq!(B16(0, 27).decode(), T9(0, 0, 3));
}

#[test]
fn decode_is_total_on_bytes() {
    assert_eq!(B16(255, 255).decode(), T9(12, 12, 36));
    assert_eq!(B16(81, 243).decode(), T9(0, 0, 30));
    for b0 in 0u8..=255 {
        for b1 in 0u8..=255 {
            let t = B16(b0, b1).decode();
            assert!(t.0 <= 26 && t.1 <= 26);
            assert_eq!(t.2, b0 / 27 + 3 * (b1 / 27));
        }
    }
}

#[test]
fn encode_wraps_out_of_range_trytes() {
    assert_eq!(T9(255, 0, 2).encode(), B16(53, 0));
    assert_eq!(T9(0, 0, 255).encode(), B16(0, 247));
    assert_eq!(T9(250, 250, 30).encode(), B16(250, 8));
    for t2 in 0u8..=255 {
        let b = T9(200, 100, t2).encode();
        assert_eq!(b.0 as u32, (200 + 27 * (t2 as u32 % 3)) % 256);
        assert_eq!(b.1 as u32, (100 + 27 * (t2 as u32 / 3)) % 256);
    }
}

#[test]
fn alphabet_maps_to_trytes_in_order() {
    assert_eq!(normalize_human_char('9'), 0);
    let letters = "ABCDEFGHIJKLMNOPQRSTUVWXYZ";
    let mut expected: u8 = 1;
    for c in letters.chars() {
        assert_eq!(normalize_human_char(c), expected);
        expected += 1;
    }
    assert_eq!(expected, 27);
    assert_eq!(T9::from_human_readable('A', '9', 'Z'), T9(1, 0, 26));
}

#[test]
fn characters_outside_the_alphabet_wrap() {
    assert_eq!(normalize_human_char('a'), 33);
    assert_eq!(normalize_human_char('0'), 240);
    assert_eq!(normalize_human_char('@'), 0);
    assert_eq!(normalize_human_char('?'), 255);
    assert_eq!(normalize_human_char('\u{e9}'), 169);
    assert_eq!(normalize_human_char('\u{141}'), 1);
    assert_eq!(normalize_human_char('\u{10ffff}'), 191);
}

#[test]
fn readable_string_is_padded_on_the_right() {
    let raw = T243::from_human_readable("AB9C").encode().decode().as_tryte_array();
    assert_eq!(raw.len(), 81);
    assert_eq!(raw[0..5], [1, 2, 0, 3, 0]);
    assert!(raw[5..].iter().all(|t| *t == 0));
    let direct = T243::from_human_readable("AB9C");
    assert_eq!(direct.0[0], T9(1, 2, 0));
    assert_eq!(direct.0[1], T9(3, 0, 0));
    assert_eq!(direct.0[2], T9(0, 0, 0));
    assert_eq!(direct.encode().0[0], B16(1, 2));
    assert_eq!(direct.encode().0[1], B16(3, 0));
}

#[test]
fn readable_string_is_cut_at_the_capacity() {
    let t = T27::from_human_readable("ABCDEFGHIJKLMNOP");
    assert_eq!(t.as_tryte_array(), [1, 2, 3, 4, 5, 6, 7, 8, 9]);
    let exact = T27::from_human_readable("ZYXWVUTSR");
    assert_eq!(exact.as_tryte_array(), [26, 25, 24, 23, 22, 21, 20, 19, 18]);
    let empty = T27::from_human_readable("");
    assert_eq!(empty.as_tryte_array(), [0u8; 9]);
    let partial = T27::from_human_readable("ZZZZ");
    assert_eq!(partial.as_tryte_array(), [26, 26, 26, 26, 0, 0, 0, 0, 0]);
}

#[test]
fn readable_string_counts_characters_not_bytes() {
    let t = T27::from_human_readable("\u{e9}A\u{141}B");
    assert_eq!(t.as_tryte_array(), [169, 1, 1, 2, 0, 0, 0, 0, 0]);
}

#[test]
fn regrouping_is_positional() {
    let t = T27::from_tryte_array([1, 2, 3, 4, 5, 6, 7, 8, 9]);
    assert_eq!(t.0, [T9(1, 2, 3), T9(4, 5, 6), T9(7, 8, 9)]);
    assert_eq!(t.as_tryte_array(), [1, 2, 3, 4, 5, 6, 7, 8, 9]);
    let unchecked = T27::from_tryte_array([255, 27, 100, 0, 0, 0, 0, 0, 0]);
    assert_eq!(unchecked.0[0], T9(255, 27, 100));
    assert_eq!(unchecked.as_tryte_array()[0..3], [255, 27, 100]);
}

#[test]
fn flattening_and_regrouping_give_the_sequence_back() {
    let seq = T81([T9(7, 0, 26); 9]);
    let again = T81::from_tryte_array(seq.as_tryte_array());
    assert_eq!(again.0, seq.0);
    assert_eq!(again.as_tryte_array(), seq.as_tryte_array());
    let odd = T27([T9(200, 201, 202), T9(0, 255, 27), T9(1, 2, 3)]);
    assert_eq!(T27::from_tryte_array(odd.as_tryte_array()).0, odd.0);
}

#[test]
fn sequence_round_trip_on_fixed_arrays() {
    let mut raw27 = [0u8; 9];
    for i in 0..9 {
        raw27[i] = ((i * 7 + 3) % 27) as u8;
    }
    assert_eq!(T27::from_tryte_array(raw27).encode().decode().as_tryte_array(), raw27);
    let mut raw81 = [0u8; 27];
    for i in 0..27 {
        raw81[i] = (26 - i) as u8;
    }
    assert_eq!(T81::from_tryte_array(raw81).encode().decode().as_tryte_array(), raw81);
    let mut raw243 = [0u8; 81];
    for i in 0..81 {
        raw243[i] = ((i * 5) % 27) as u8;
    }
    assert_eq!(T243::from_tryte_array(raw243).encode().decode().as_tryte_array(), raw243);
    let mut raw721 = [0u8; 240];
    for i in 0..240 {
        raw721[i] = ((i * 11 + 1) % 27) as u8;
    }
    assert_eq!(T721::from_tryte_array(raw721).encode().decode().as_tryte_array(), raw721);
}

#[test]
fn sequence_encode_keeps_group_order() {
    let t = T27([T9(5, 26, 17), T9(0, 0, 1), T9(26, 26, 26)]);
    let b = t.encode();
    assert_eq!(b.0, [B16(59, 161), B16(27, 0), B16(80, 242)]);
    assert_eq!(b.decode().0, t.0);
    let p = B48([B16(255, 255), B16(0, 27), B16(1, 2)]);
    assert_eq!(p.decode().0, [T9(12, 12, 36), T9(0, 0, 3), T9(1, 2, 0)]);
}

#[test]
fn lengths_are_fixed() {
    assert_eq!(T27::random().0.len(), 3);
    assert_eq!(T27::random().as_tryte_array().len(), 9);
    assert_eq!(T27::random().encode().0.len(), 3);
    assert_eq!(T81::random().0.len(), 9);
    assert_eq!(T81::random().as_tryte_array().len(), 27);
    assert_eq!(T81::random().encode().0.len(), 9);
    assert_eq!(T243::random().0.len(), 27);
    assert_eq!(T243::random().as_tryte_array().len(), 81);
    assert_eq!(T243::random().encode().0.len(), 27);
    assert_eq!(T721::random().0.len(), 80);
    assert_eq!(T721::random().as_tryte_array().len(), 240);
    assert_eq!(T721::random().encode().0.len(), 80);
    assert_eq!(std::mem::size_of::<B48>(), 6);
    assert_eq!(std::mem::size_of::<B144>(), 18);
    assert_eq!(std::mem::size_of::<B432>(), 54);
    assert_eq!(std::mem::size_of::<B1296>(), 160);
}

#[test]
fn random_trytes_are_in_range() {
    for _ in 0..50 {
        assert!(T27::random_tryte_array().iter().all(|t| *t <= 26));
        assert!(T81::random_tryte_array().iter().all(|t| *t <= 26));
        assert!(T243::random_tryte_array().iter().all(|t| *t <= 26));
        assert!(T721::random_tryte_array().iter().all(|t| *t <= 26));
        let seq = T721::random();
        assert!(seq.0.iter().all(|g| g.0 <= 26 && g.1 <= 26 && g.2 <= 26));
        assert!(seq.encode().0.iter().all(|p| p.0 <= 80 && p.1 <= 242));
    }
}

#[test]
fn random_trytes_are_not_one_repeated_bound() {
    let raw = T721::random_tryte_array();
    let first = raw[0];
    assert!(raw.iter().any(|t| *t != first));
    let mut seen = [false; 27];
    for _ in 0..20 {
        for t in T721::random_tryte_array().iter() {
            seen[*t as usize] = true;
        }
    }
    assert!(seen.iter().all(|s| *s));
}

#[test]
fn zero_sequence_packs_to_zero_bytes() {
    let nines = "9".repeat(240);
    let t27 = T27::from_human_readable(&nines);
    assert_eq!(t27.0, [T9(0, 0, 0); 3]);
    assert_eq!(t27.encode().0, [B16(0, 0); 3]);
    assert_eq!(t27.encode().decode().as_tryte_array(), [0u8; 9]);
    let t81 = T81::from_tryte_array([0u8; 27]);
    assert_eq!(t81.encode().0, [B16(0, 0); 9]);
    assert_eq!(t81.encode().decode().as_tryte_array(), [0u8; 27]);
    let t243 = T243::from_human_readable(&nines);
    assert_eq!(t243.encode().0, [B16(0, 0); 27]);
    assert_eq!(t243.encode().decode().as_tryte_array(), [0u8; 81]);
    let t721 = T721::from_human_readable(&nines);
    assert_eq!(t721.encode().0, [B16(0, 0); 80]);
    assert_eq!(t721.encode().decode().as_tryte_array(), [0u8; 240]);
}
