use textutils::count::{
    count_words, counter, format_output, report_line, total_line, CountKinds, FileInfo,
};

fn chars(s: &str) -> Vec<char> {
    s.chars().collect()
}

#[test]
fn words_of_whitespace_only_line() {
    assert_eq!(count_words(&chars(" \t  \n")), 0);
    assert_eq!(count_words(&chars("")), 0);
}

#[test]
fn words_split_on_runs_of_whitespace() {
    assert_eq!(count_words(&chars("a  b\tc")), 3);
    assert_eq!(count_words(&chars("  lead and trail  ")), 3);
    assert_eq!(count_words(&chars("x\u{3000}y")), 2);
}

#[test]
fn counts_of_two_line_file() {
    let info = counter(b"hello\nab c\n");
    assert_eq!(
        info,
        FileInfo { line_count: 2, word_count: 3, byte_count: 11, char_count: 11 }
    );
    let k = CountKinds { lines: false, words: false, bytes: false, chars: false }.resolved();
    assert_eq!(report_line(&info, &k, "filename"), "       2       3      11 filename");
}

#[test]
fn line_count_with_unterminated_last_line() {
    assert_eq!(counter(b"a\nb").line_count, 2);
    assert_eq!(counter(b"a\nb\n").line_count, 2);
    assert_eq!(counter(b"").line_count, 0);
    assert_eq!(counter(b"\n\n\n").line_count, 3);
}

#[test]
fn bytes_and_chars_differ_for_multibyte_text() {
    let info = counter("héllo\n".as_bytes());
    assert_eq!(info.byte_count, 7);
    assert_eq!(info.char_count, 6);
    assert_eq!(info.word_count, 1);
}

#[test]
fn invalid_bytes_count_as_replacement_characters() {
    let info = counter(b"a\xffb\n");
    assert_eq!(info.byte_count, 4);
    assert_eq!(info.char_count, 4);
    assert_eq!(info.word_count, 1);
}

#[test]
fn counting_twice_gives_same_counts() {
    let data = b"one two\nthree\n\nfour";
    assert_eq!(counter(data), counter(data));
}

#[test]
fn streaming_matches_whole_count() {
    let mut info = FileInfo::zero();
    info.add_line(b"hello\n");
    info.add_line(b"ab c\n");
    assert_eq!(info, counter(b"hello\nab c\n"));
}

#[test]
fn totals_add_up() {
    let mut total = FileInfo::zero();
    total.add(&counter(b"a b\n"));
    total.add(&counter(b"c\nd\n"));
    assert_eq!(total, FileInfo { line_count: 3, word_count: 4, byte_count: 8, char_count: 8 });
    let k = CountKinds { lines: true, words: false, bytes: false, chars: true };
    assert_eq!(total_line(&total, &k.resolved()), "       3       8 total");
}

#[test]
fn format_output_pads_or_hides() {
    assert_eq!(format_output(42, true), "      42");
    assert_eq!(format_output(42, false), "");
    assert_eq!(format_output(123456789, true), "123456789");
    assert_eq!(format_output(0, true), "       0");
}

#[test]
fn stdin_report_has_no_name() {
    let info = counter(b"x\n");
    let k = CountKinds { lines: true, words: false, bytes: false, chars: false };
    assert_eq!(report_line(&info, &k, "-"), "       1");
}
