use textutils::echo::echo_text;
use textutils::source::{is_stdin, open_failure, resolve_sources};
use textutils::text::{logical_line, next_line_end, split_lines};

#[test]
fn echo_joins_with_spaces() {
    let t = vec!["hello".to_string(), "there".to_string()];
    assert_eq!(echo_text(&t, false), "hello there\n");
    assert_eq!(echo_text(&t, true), "hello there");
    assert_eq!(echo_text(&vec!["a  b".to_string()], false), "a  b\n");
}

#[test]
fn sources_default_to_stdin() {
    assert_eq!(resolve_sources(vec![]), vec!["-".to_string()]);
    let v = vec!["a".to_string(), "a".to_string(), "-".to_string()];
    assert_eq!(resolve_sources(v.clone()), v);
    assert!(is_stdin("-"));
    assert!(!is_stdin("--"));
    assert!(!is_stdin("a"));
}

#[test]
fn open_failure_names_source_and_cause() {
    assert_eq!(
        open_failure("missing.txt", "No such file or directory (os error 2)"),
        "missing.txt: No such file or directory (os error 2)"
    );
}

#[test]
fn lines_split_with_terminators() {
    assert_eq!(
        split_lines(b"a\n\nbc"),
        vec![b"a\n".to_vec(), b"\n".to_vec(), b"bc".to_vec()]
    );
    assert!(split_lines(b"").is_empty());
    assert_eq!(next_line_end(b"ab\ncd", 0), 3);
    assert_eq!(next_line_end(b"ab\ncd", 3), 5);
}

#[test]
fn decoding_replaces_invalid_bytes() {
    assert_eq!(logical_line(b"a\xffb\n"), vec!['a', '\u{fffd}', 'b']);
    assert_eq!(logical_line(b"x\r\n"), vec!['x']);
    assert_eq!(logical_line(b"\n"), Vec::<char>::new());
}
