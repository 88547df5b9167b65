use wasabi::staticvec::WriteError;
use wasabi::staticvec::string::{
    encode_char_utf8_unchecked, encode_utf8_raw, is_inside_boundary, str_is_char_boundary,
    truncate_str, StaticString, StringError,
};
use wasabi::staticvec::StaticVec;

#[test]
fn truncate() {
    assert_eq!(truncate_str("i", 10), "i");
    assert_eq!(truncate_str("iiiiii", 3), "iii");
    assert_eq!(truncate_str("🤔🤔🤔", 5), "🤔");
    assert_eq!(truncate_str("🤔🤔🤔", 0), "");
}

#[test]
fn shift_right() {
    let mut ls = StaticString::<20>::try_from_str("abcdefg").unwrap();
    ls.shift_right(0usize, 4usize);
    ls.set_len(ls.len() + 4);
    assert_eq!(ls.as_str(), "abcdabcdefg");
}

#[test]
fn shift_left() {
    let mut ls = StaticString::<20>::try_from_str("abcdefg").unwrap();
    ls.shift_left(1usize, 0usize);
    ls.set_len(ls.len() - 1);
    assert_eq!(ls.as_str(), "bcdefg");
}

#[test]
fn shift_nop() {
    let mut ls = StaticString::<20>::try_from_str("abcdefg").unwrap();
    ls.shift_right(0usize, 0usize);
    assert_eq!(ls.as_str(), "abcdefg");
    ls.shift_left(0usize, 0usize);
    assert_eq!(ls.as_str(), "abcdefg");
}

#[test]
fn test_extend_drop_no_panic() {
    let mut a = StaticVec::<u64, 6, usize>::new();
    let mut b = StaticVec::<u64, 6, usize>::new();

    a.extend_from_slice(&[1, 2]);
    b.extend_from_slice(&[3, 4, 5]);

    a.extend(b);

    assert_eq!(a.as_slice(), [1, 2, 3, 4, 5]);
}

#[test]
fn extend_drops_what_does_not_fit() {
    let mut a = StaticVec::<u64, 4, usize>::new();
    let mut b = StaticVec::<u64, 6, usize>::new();
    a.extend_from_slice(&[1, 2, 3]);
    b.extend_from_slice(&[4, 5, 6]);
    a.extend(b);
    assert_eq!(a.as_slice(), [1, 2, 3, 4]);
    assert!(a.is_full());
    assert_eq!(a.remaining_capacity(), 0);
    a.extend_from_slice(&[7]);
    assert_eq!(a.len(), 4);
}

#[test]
fn try_push_hands_back_when_full() {
    let mut a = StaticVec::<u8, 1, u8>::new();
    assert_eq!(a.try_push(1), Ok(()));
    assert_eq!(a.try_push(2), Err(2));
    assert_eq!(a.as_slice(), [1]);
}

#[test]
fn string_too_long_is_refused() {
    assert!(StaticString::<3>::try_from_str("abcd").is_err());
    let s = StaticString::<4>::try_from_str("abcd").unwrap();
    assert_eq!(s.as_bytes(), b"abcd");
    assert_eq!(s.capacity(), 4);
}

#[test]
fn char_boundaries() {
    assert!(str_is_char_boundary("a🤔", 0));
    assert!(str_is_char_boundary("a🤔", 1));
    assert!(!str_is_char_boundary("a🤔", 2));
    assert!(str_is_char_boundary("a🤔", 5));
    assert!(!str_is_char_boundary("a🤔", 6));
    let s = StaticString::<8>::try_from_str("a🤔").unwrap();
    assert_eq!(s.is_char_boundary(3), Err(StringError::NotCharBoundary));
    assert_eq!(s.is_char_boundary(1), Ok(()));
    assert_eq!(is_inside_boundary(3, 2), Err(StringError::OutOfBounds));
    assert_eq!(is_inside_boundary(2, 2), Ok(()));
}

#[test]
fn encode_char_utf8() {
    let mut string = StaticString::<20>::default();
    encode_char_utf8_unchecked(&mut string, 'a', 0);
    assert_eq!(core::str::from_utf8(string.as_bytes()).unwrap(), "a");
    let mut string = StaticString::<20>::try_from_str("a").unwrap();
    encode_char_utf8_unchecked(&mut string, '🤔', 1);
    assert_eq!(core::str::from_utf8(&string.as_bytes()[..5]).unwrap(), "a🤔");
}

#[test]
fn raw_utf8_encodings() {
    assert_eq!(encode_utf8_raw('é' as u32, 2), [0xC3, 0xA9, 0, 0]);
    assert_eq!(encode_utf8_raw('€' as u32, 3), [0xE2, 0x82, 0xAC, 0]);
    assert_eq!(encode_utf8_raw('🤔' as u32, 4), [0xF0, 0x9F, 0xA4, 0x94]);
}

#[test]
fn items_beyond_capacity_are_ignored() {
    let v = StaticVec::<u8, 3, usize>::from_iter_ex(vec![1, 2, 3, 4, 5]);
    assert_eq!(v.as_slice(), &[1, 2, 3]);
    let mut w = StaticVec::<u8, 4, usize>::from_iter_ex(vec![9]);
    w.extend_ex(vec![8, 7, 6, 5]);
    assert_eq!(w.as_slice(), &[9, 8, 7, 6]);
    assert_eq!(*w.get(1), 8);
}

#[test]
fn writing_text_into_bytes() {
    let mut v = StaticVec::<u8, 5, usize>::new();
    assert_eq!(v.write_str("abc"), Ok(()));
    assert_eq!(v.write_str("def"), Err(WriteError));
    assert_eq!(v.as_slice(), b"abc");
    assert_eq!(v.write_str("de"), Ok(()));
    assert_eq!(v.as_slice(), b"abcde");
}
