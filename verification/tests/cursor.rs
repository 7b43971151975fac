use pkl_lexer::source::Source;

#[test]
fn new_source_ptr_works() {
    let prgm = "123";
    let src = Source::new(prgm);

    assert_eq!(src.get_current_pos(), 0);
}

#[test]
fn cursor_reads_and_advances() {
    let mut src = Source::new("abc");
    assert!(!src.is_at_end());
    assert_eq!(src.current(), b'a');
    assert_eq!(src.peek(), Some(b'b'));
    assert_eq!(src.add(2), b'c');

    let b = src.advance(1);
    assert_eq!(b, b'b');
    assert_eq!(src.get_current_pos(), 1);
    assert_eq!(src.offset(), 1);
    assert_eq!(src.peek(), Some(b'c'));

    src.advance_by(1);
    assert_eq!(src.current(), b'c');
    assert_eq!(src.peek(), None);
}

#[test]
fn advance_by_clamps_at_end() {
    let mut src = Source::new("ab");
    src.advance_by(100);
    assert_eq!(src.get_current_pos(), 2);
    assert!(src.is_at_end());
    src.advance_by(1);
    assert_eq!(src.get_current_pos(), 2);
    assert!(src.is_at_end());
}

#[test]
fn slices_reproduce_the_source() {
    let src = Source::new("hello world");
    assert_eq!(src.get_slice(0, 5), b"hello");
    assert_eq!(src.get_slice(6, 11), b"world");
    assert_eq!(src.get_slice(3, 3), b"");
    assert_eq!(src.get_whole_source(), b"hello world");
}

#[test]
fn char_reads_match_bytes() {
    let mut src = Source::new("hi");
    assert_eq!(src.peek_char(), Some('h'));
    assert_eq!(src.next_char(), Some('h'));
    assert_eq!(src.peek_char(), Some('i'));
    assert_eq!(src.next_char(), Some('i'));
    assert_eq!(src.peek_char(), None);
    assert_eq!(src.next_char(), None);
    assert!(src.is_at_end());
}
