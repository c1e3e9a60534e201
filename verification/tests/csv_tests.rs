use space_game::csv::{fields_exec, lines_exec, split_bytes};

#[test]
fn split_keeps_empty_pieces() {
    assert_eq!(split_bytes(b"a,,b,", b','), vec![b"a".to_vec(), vec![], b"b".to_vec(), vec![]]);
    assert_eq!(split_bytes(b"", b','), vec![Vec::<u8>::new()]);
}

#[test]
fn lines_follow_line_feeds() {
    assert_eq!(lines_exec(b"a\r\nb\n"), vec![b"a".to_vec(), b"b".to_vec()]);
    assert_eq!(lines_exec(b"a\nb"), vec![b"a".to_vec(), b"b".to_vec()]);
    assert_eq!(lines_exec(b""), Vec::<Vec<u8>>::new());
    assert_eq!(lines_exec(b"\n\n"), vec![vec![], vec![]]);
    // A carriage return is dropped only before a line feed.
    assert_eq!(lines_exec(b"a\r"), vec![b"a\r".to_vec()]);
    assert_eq!(lines_exec(b"a\r\r\n"), vec![b"a\r".to_vec()]);
}

#[test]
fn fields_skip_empty_ones() {
    assert_eq!(fields_exec(&b",1,,2,".to_vec()), vec![b"1".to_vec(), b"2".to_vec()]);
    assert!(fields_exec(&Vec::new()).is_empty());
}
