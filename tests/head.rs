use textutils::head::{head_bytes, head_bytes_text, head_lines, header, LineLimit};

#[test]
fn head_lines_takes_at_most_n() {
    let data = b"1\n2\n3\n";
    assert_eq!(head_lines(data, 2), vec![b"1\n".to_vec(), b"2\n".to_vec()]);
    assert_eq!(head_lines(data, 10).len(), 3);
    assert_eq!(head_lines(b"a\nb", 5), vec![b"a\n".to_vec(), b"b".to_vec()]);
}

#[test]
fn head_bytes_takes_at_most_n() {
    assert_eq!(head_bytes(b"abcdef", 3), b"abc".to_vec());
    assert_eq!(head_bytes(b"ab", 5), b"ab".to_vec());
    let t: String = head_bytes_text("héllo".as_bytes(), 2).into_iter().collect();
    assert_eq!(t, "h\u{fffd}");
}

#[test]
fn line_limit_stops_at_limit_or_end() {
    let mut l = LineLimit::new(2);
    assert!(!l.done());
    assert!(l.take(b"a\n"));
    assert!(l.take(b"b\n"));
    assert!(l.done());
    assert!(!l.take(b"c\n"));
    let mut l = LineLimit::new(5);
    assert!(!l.take(b""));
}

#[test]
fn headers_for_several_sources() {
    assert_eq!(header("a.txt", 0, 2), "==> a.txt <==\n");
    assert_eq!(header("b.txt", 1, 2), "\n==> b.txt <==\n");
    assert_eq!(header("a.txt", 0, 1), "");
}
