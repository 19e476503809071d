use textutils::caret::{caret_encode, show_nonprinting, show_nonprinting_chars, show_tabs};
use textutils::display::{DisplayOptions, DisplayState};

fn lines(v: &[&str]) -> Vec<String> {
    v.iter().map(|s| s.to_string()).collect()
}

fn shown(v: Vec<Option<String>>) -> Vec<String> {
    v.into_iter().flatten().collect()
}

#[test]
fn squeeze_collapses_blank_run() {
    let mut o = DisplayOptions::plain();
    o.squeeze_blank = true;
    let mut st = DisplayState::new();
    let out = shown(st.display_source(&o.expanded(), &lines(&["foo", "", "", "bar"])));
    assert_eq!(out, vec!["foo\n", "\n", "bar\n"]);
}

#[test]
fn squeeze_spans_sources() {
    let mut o = DisplayOptions::plain();
    o.squeeze_blank = true;
    let o = o.expanded();
    let mut st = DisplayState::new();
    let a = shown(st.display_source(&o, &lines(&["x", "", "", ""])));
    st.start_source();
    let b = shown(st.display_source(&o, &lines(&["", "", "y"])));
    assert_eq!(a, vec!["x\n", "\n"]);
    assert_eq!(b, vec!["y\n"]);
}

#[test]
fn plain_display_reproduces_lines() {
    let o = DisplayOptions::plain().expanded();
    let mut st = DisplayState::new();
    let out = st.display_source(&o, &lines(&["a\tb", "", "\u{1}c"]));
    assert_eq!(
        out,
        vec![Some("a\tb\n".to_string()), Some("\n".to_string()), Some("\u{1}c\n".to_string())]
    );
}

#[test]
fn caret_encoding_of_controls() {
    assert_eq!(caret_encode('\u{1}'), vec!['^', 'A']);
    assert_eq!(caret_encode('\u{0}'), vec!['^', '@']);
    assert_eq!(caret_encode('\u{7f}'), vec!['^', '?']);
    assert_eq!(caret_encode('\u{1b}'), vec!['^', '[']);
    assert_eq!(caret_encode('\t'), vec!['\t']);
    assert_eq!(caret_encode('\n'), vec!['\n']);
    assert_eq!(caret_encode('a'), vec!['a']);
}

#[test]
fn tab_is_kept_by_nonprinting_view() {
    assert_eq!(show_nonprinting_chars("a\u{1}\tb".to_string()), "a^A\tb");
    let t: Vec<char> = "a\tb".chars().collect();
    assert_eq!(show_nonprinting(&t), t);
    assert_eq!(show_tabs(&t), vec!['a', '^', 'I', 'b']);
}

#[test]
fn show_all_marks_tabs_controls_and_ends() {
    let mut o = DisplayOptions::plain();
    o.show_all = true;
    let o = o.expanded();
    assert!(o.show_tabs && o.show_ends && o.show_nonprinting);
    let mut st = DisplayState::new();
    let out = st.display_source(&o, &lines(&["a\t\u{1}"]));
    assert_eq!(out, vec![Some("a^I^A$\n".to_string())]);
}

#[test]
fn combined_switches_expand() {
    let mut o = DisplayOptions::plain();
    o.show_nonprint_ends = true;
    let e = o.expanded();
    assert!(e.show_nonprinting && e.show_ends && !e.show_tabs);
    let mut o = DisplayOptions::plain();
    o.show_nonprint_tabs = true;
    let t = o.expanded();
    assert!(t.show_nonprinting && t.show_tabs && !t.show_ends);
}

#[test]
fn numbering_all_lines() {
    let mut o = DisplayOptions::plain();
    o.number_lines = true;
    let mut st = DisplayState::new();
    let out = shown(st.display_source(&o.expanded(), &lines(&["a", "", "b"])));
    assert_eq!(out, vec!["     1\ta\n", "     2\t\n", "     3\tb\n"]);
}

#[test]
fn numbering_nonblank_and_restart() {
    let mut o = DisplayOptions::plain();
    o.number_nonblank_lines = true;
    let o = o.expanded();
    let mut st = DisplayState::new();
    let out = shown(st.display_source(&o, &lines(&["a", "", "b"])));
    assert_eq!(out, vec!["     1\ta\n", "\n", "     2\tb\n"]);
    st.start_source();
    let out = shown(st.display_source(&o, &lines(&["c"])));
    assert_eq!(out, vec!["     1\tc\n"]);
}

#[test]
fn display_line_strips_terminators() {
    let mut o = DisplayOptions::plain();
    o.show_ends = true;
    let o = o.expanded();
    let mut st = DisplayState::new();
    assert_eq!(st.display_line(&o, b"ab\r\n"), Some("ab$\n".to_string()));
    assert_eq!(st.display_line(&o, b"cd\n"), Some("cd$\n".to_string()));
    assert_eq!(st.display_line(&o, b"ef"), Some("ef$\n".to_string()));
    assert_eq!(st.display_line(&o, b"\xff\n"), Some("\u{fffd}$\n".to_string()));
}
