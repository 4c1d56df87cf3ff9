use editcore::arena::{Arena, ALLOC_CHUNK_SIZE};
use editcore::bstring::BString;
use editcore::bvec::BVec;

fn arena() -> Arena {
    Arena::new(4 * ALLOC_CHUNK_SIZE).unwrap()
}

#[test]
fn empty_string() {
    let s = BString::empty();
    assert_eq!(s.len(), 0);
    assert!(s.is_empty());
    assert_eq!(s.as_bytes(), b"");
}

#[test]
fn push_encodes_utf8() {
    let mut a = arena();
    let mut s = BString::empty();
    s.push(&mut a, 'a');
    s.push(&mut a, 'é');
    s.push(&mut a, '€');
    s.push(&mut a, '😊');
    assert_eq!(s.as_bytes(), "aé€😊".as_bytes());
    assert_eq!(s.as_str(), "aé€😊");
}

#[test]
fn push_str_appends() {
    let mut a = arena();
    let mut s = BString::empty();
    s.push_str(&mut a, "hello ");
    s.push_str(&mut a, "wörld");
    assert_eq!(s.as_str(), "hello wörld");
    assert_eq!(s.len(), "hello wörld".len());
}

#[test]
fn from_str_and_round_trips() {
    let mut a = arena();
    let s = BString::from_str(&mut a, "grüße");
    assert_eq!(s.as_str(), "grüße");
    let owned = s.into_std_string();
    assert_eq!(owned, "grüße");
    let back = BString::from_std_string(owned);
    assert_eq!(back.as_str(), "grüße");
}

#[test]
fn from_utf8_validates() {
    let ok = BVec::from_slice("héllo".as_bytes());
    let s = BString::from_utf8(ok).unwrap();
    assert_eq!(s.as_str(), "héllo");
    let bad = BVec::from_slice(&[0x68, 0xff, 0x6f]);
    assert!(BString::from_utf8(bad).is_err());
}

#[test]
fn push_repeat_ascii() {
    let mut a = arena();
    let mut s = BString::empty();
    s.push_repeat(&mut a, 'x', 5);
    assert_eq!(s.as_str(), "xxxxx");
}

#[test]
fn push_repeat_wide_char() {
    let mut a = arena();
    let mut s = BString::empty();
    s.push_repeat(&mut a, '😊', 3);
    // a 12-byte valid-UTF-8 string: the 4-byte encoding three times over
    assert_eq!(s.len(), 12);
    let mut expected = Vec::new();
    for _ in 0..3 {
        expected.extend_from_slice("😊".as_bytes());
    }
    assert_eq!(s.as_bytes(), expected.as_slice());
    assert_eq!(s.as_str(), "😊😊😊");
}

#[test]
fn push_repeat_three_byte_char() {
    let mut a = arena();
    let mut s = BString::from_str(&mut a, "-");
    s.push_repeat(&mut a, '€', 7);
    assert_eq!(s.as_str(), "-€€€€€€€");
}

#[test]
fn from_utf8_lossy_valid_input_copies_nothing() {
    let mut a = arena();
    let mut v: BVec<u8> = BVec::empty();
    v.extend_from_slice(&mut a, "already valid ütf8".as_bytes());
    let base = v.as_ptr();
    let cap = v.capacity();
    let offset_before = a.offset();
    let s = BString::from_utf8_lossy(&mut a, v);
    // zero additional byte copies: same backing allocation, untouched arena
    assert_eq!(s.as_ptr(), base);
    assert_eq!(s.capacity(), cap);
    assert_eq!(a.offset(), offset_before);
    assert_eq!(s.as_str(), "already valid ütf8");
}

#[test]
fn from_utf8_lossy_replaces_one_invalid_byte() {
    let mut a = arena();
    let mut v: BVec<u8> = BVec::empty();
    v.extend_from_slice(&mut a, &[b'a', b'b', 0xff, b'c']);
    let s = BString::from_utf8_lossy(&mut a, v);
    assert_eq!(s.as_str(), "ab\u{fffd}c");
}

#[test]
fn from_utf8_lossy_maximal_subparts() {
    let mut a = arena();
    // a truncated 3-byte sequence counts as one maximal subpart
    let mut v: BVec<u8> = BVec::empty();
    v.extend_from_slice(&mut a, &[0xe2, 0x82, b'x']);
    let s = BString::from_utf8_lossy(&mut a, v);
    assert_eq!(s.as_str(), "\u{fffd}x");
    // a lone continuation byte is one subpart each
    let mut w: BVec<u8> = BVec::empty();
    w.extend_from_slice(&mut a, &[0x80, 0x80]);
    let t = BString::from_utf8_lossy(&mut a, w);
    assert_eq!(t.as_str(), "\u{fffd}\u{fffd}");
}

#[test]
fn from_utf16_lossy_decodes_pairs() {
    let mut a = arena();
    let units: Vec<u16> = "a😊b".encode_utf16().collect();
    let s = BString::from_utf16_lossy(&mut a, units.as_slice());
    assert_eq!(s.as_str(), "a😊b");
}

#[test]
fn from_utf16_lossy_replaces_unpaired_surrogates() {
    let mut a = arena();
    let units: [u16; 3] = [0x0061, 0xd800, 0x0062];
    let s = BString::from_utf16_lossy(&mut a, &units);
    assert_eq!(s.as_str(), "a\u{fffd}b");
}

#[test]
fn extend_pushes_chars() {
    let mut a = arena();
    let mut s = BString::empty();
    s.extend(&mut a, vec!['h', 'é', '€']);
    assert_eq!(s.as_str(), "hé€");
}

#[test]
fn replace_range_respects_boundaries() {
    let mut a = arena();
    let mut s = BString::from_str(&mut a, "hello world");
    s.replace_range(&mut a, 6, 11, "universe");
    assert_eq!(s.as_str(), "hello universe");
    s.replace_range(&mut a, 0, 5, "bye");
    assert_eq!(s.as_str(), "bye universe");
}

#[test]
fn replace_once_in_place_first_match_only() {
    let mut a = arena();
    let mut s = BString::from_str(&mut a, "one fish two fish");
    s.replace_once_in_place(&mut a, "fish", "frog");
    assert_eq!(s.as_str(), "one frog two fish");
    s.replace_once_in_place(&mut a, "whale", "frog");
    assert_eq!(s.as_str(), "one frog two fish");
    s.replace_once_in_place(&mut a, "two fish", "!");
    assert_eq!(s.as_str(), "one frog !");
}

#[test]
fn clear_keeps_capacity() {
    let mut a = arena();
    let mut s = BString::from_str(&mut a, "content");
    let cap = s.capacity();
    s.clear();
    assert_eq!(s.len(), 0);
    assert_eq!(s.capacity(), cap);
}

#[test]
fn unchecked_wrap_of_known_valid_bytes() {
    let v = BVec::from_slice(b"plain ascii");
    let s = BString::from_utf8_unchecked(v);
    assert_eq!(s.as_str(), "plain ascii");
}
