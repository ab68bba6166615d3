use zenalloc::{ZenAsciiChar, ZenAsciiString, ZenAsciiStringError};

#[test]
fn ascii_char_accepts_only_ascii() {
    let a = ZenAsciiChar::new('A').unwrap();
    assert_eq!(a.as_u8(), 65);
    assert_eq!(a.as_char(), 'A');
    assert!(ZenAsciiChar::new('\u{7f}').is_some());
    assert!(ZenAsciiChar::new('é').is_none());
    assert!(ZenAsciiChar::new('\u{80}').is_none());
}

#[test]
fn ascii_string_from_str() {
    let s = ZenAsciiString::from_str("hello").unwrap();
    assert_eq!(s.len(), 5);
    assert_eq!(s.capacity(), 5);
    assert!(!s.is_empty());
    assert!(matches!(ZenAsciiString::from_str("héllo"), Err(ZenAsciiStringError::InvalidStr)));
    let empty = ZenAsciiString::from_str("").unwrap();
    assert!(empty.is_empty());
}

#[test]
fn ascii_string_push_and_pop() {
    let mut s = ZenAsciiString::new();
    assert_eq!(s.capacity(), 0);
    s.push(ZenAsciiChar::new('o').unwrap());
    s.push(ZenAsciiChar::new('k').unwrap());
    assert_eq!(s.len(), 2);
    assert_eq!(s.pop().map(|c| c.as_char()), Some('k'));
    assert_eq!(s.pop().map(|c| c.as_char()), Some('o'));
    assert!(s.pop().is_none());
    let with_room = ZenAsciiString::with_capacity(8).unwrap();
    assert_eq!(with_room.capacity(), 8);
    assert!(with_room.is_empty());
}
