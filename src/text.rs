use vstd::prelude::*;
use vstd::slice::{slice_subrange, slice_to_vec};
use vstd::utf8::{decode_utf8, valid_utf8};

verus! {

pub const NEWLINE: u8 = 10;

/// The length of the first line of `s`, its terminator included: the bytes up
/// to and including the first line feed, or all of `s` if it holds none.
pub open spec fn line_len(s: Seq<u8>) -> nat
    decreases s.len(),
{
    if s.len() == 0 {
        0
    } else if s[0] == NEWLINE {
        1
    } else {
        1 + line_len(s.drop_first())
    }
}

pub proof fn lemma_line_len_bounds(s: Seq<u8>)
    ensures
        line_len(s) <= s.len(),
        s.len() > 0 ==> line_len(s) >= 1,
    decreases s.len(),
{
    if s.len() > 0 && s[0] != NEWLINE {
        lemma_line_len_bounds(s.drop_first());
    }
}

/// The lines of a source, each with its terminator; the last one lacks it
/// where the source does not end in a line feed.
pub open spec fn lines_of(s: Seq<u8>) -> Seq<Seq<u8>>
    decreases s.len(),
    via lines_of_decreases
{
    if s.len() == 0 {
        seq![]
    } else {
        seq![s.take(line_len(s) as int)] + lines_of(s.skip(line_len(s) as int))
    }
}

#[via_fn]
proof fn lines_of_decreases(s: Seq<u8>) {
    lemma_line_len_bounds(s);
}

/// The content of a line without its terminator: a final line feed goes, and
/// a carriage return before it with it.
pub open spec fn strip_terminator(l: Seq<u8>) -> Seq<u8> {
    if l.len() > 0 && l.last() == NEWLINE {
        let t = l.drop_last();
        if t.len() > 0 && t.last() == 13 {
            t.drop_last()
        } else {
            t
        }
    } else {
        l
    }
}

/// The contents of a sequence of byte buffers.
pub open spec fn byte_lines(v: Seq<Vec<u8>>) -> Seq<Seq<u8>> {
    v.map_values(|l: Vec<u8>| l@)
}

/// Text decoded from bytes, with each invalid sequence replaced by U+FFFD.
pub uninterp spec fn lossy_text(b: Seq<u8>) -> Seq<char>;

/// Unicode's White_Space property.
pub open spec fn is_white_space(c: char) -> bool {
    let v = c as u32;
    (0x09 <= v && v <= 0x0D) || v == 0x20 || v == 0x85 || v == 0xA0 || v == 0x1680 || (0x2000
        <= v && v <= 0x200A) || v == 0x2028 || v == 0x2029 || v == 0x202F || v == 0x205F || v
        == 0x3000
}

/// Relies on `String::from_utf8_lossy`: valid UTF-8 is decoded as it is, and
/// the result depends on the bytes alone.
#[verifier::external_body]
pub(crate) fn decode_lossy(b: &[u8]) -> (r: Vec<char>)
    ensures
        r@ == lossy_text(b@),
        valid_utf8(b@) ==> r@ == decode_utf8(b@),
{
    String::from_utf8_lossy(b).chars().collect()
}

/// Relies on `char::is_whitespace`, which tests the White_Space property.
#[verifier::external_body]
pub(crate) fn is_space(c: char) -> (r: bool)
    ensures
        r == is_white_space(c),
{
    c.is_whitespace()
}

/// Relies on `str::chars`, collected in order.
#[verifier::external_body]
pub(crate) fn chars_of(s: &str) -> (r: Vec<char>)
    ensures
        r@ == s@,
{
    s.chars().collect()
}

/// Relies on `String`'s `FromIterator<&char>`, which appends in order.
#[verifier::external_body]
pub(crate) fn text_of(v: &[char]) -> (r: String)
    ensures
        r@ == v@,
{
    v.iter().collect()
}

/// The end of the line that starts at `start`, just past its terminator.
pub fn next_line_end(data: &[u8], start: usize) -> (end: usize)
    requires
        start <= data@.len(),
    ensures
        end == start + line_len(data@.skip(start as int)),
        end <= data@.len(),
{
    let mut i: usize = start;
    while i < data.len()
        invariant
            start <= i <= data@.len(),
            line_len(data@.skip(start as int)) == (i - start) + line_len(data@.skip(i as int)),
        decreases data@.len() - i,
    {
        assert(data@.skip(i as int)[0] == data@[i as int]);
        if data[i] == NEWLINE {
            return i + 1;
        }
        assert(data@.skip(i as int).drop_first() =~= data@.skip(i + 1));
        i = i + 1;
    }
    assert(data@.skip(i as int).len() == 0);
    i
}

/// Splits a source into its lines, each with its terminator.
pub fn split_lines(data: &[u8]) -> (r: Vec<Vec<u8>>)
    ensures
        byte_lines(r@) == lines_of(data@),
{
    let mut r: Vec<Vec<u8>> = Vec::new();
    let mut start: usize = 0;
    assert(data@.skip(0) =~= data@);
    while start < data.len()
        invariant
            start <= data@.len(),
            lines_of(data@) == byte_lines(r@) + lines_of(data@.skip(start as int)),
        decreases data@.len() - start,
    {
        let end = next_line_end(data, start);
        let ghost rest = data@.skip(start as int);
        proof {
            lemma_line_len_bounds(rest);
            assert(rest.skip(line_len(rest) as int) =~= data@.skip(end as int));
            assert(rest.take(line_len(rest) as int) =~= data@.subrange(start as int, end as int));
        }
        let line = slice_to_vec(slice_subrange(data, start, end));
        let ghost before = byte_lines(r@);
        r.push(line);
        assert(byte_lines(r@) =~= before.push(line@));
        start = end;
    }
    assert(data@.skip(start as int) =~= Seq::<u8>::empty());
    assert(byte_lines(r@) + lines_of(data@.skip(start as int)) =~= byte_lines(r@));
    r
}

/// The content of a line read with its terminator: the terminator removed
/// and the bytes decoded.
pub fn logical_line(raw: &[u8]) -> (r: Vec<char>)
    ensures
        r@ == lossy_text(strip_terminator(raw@)),
{
    let mut n: usize = raw.len();
    if n > 0 && raw[n - 1] == NEWLINE {
        n = n - 1;
        if n > 0 && raw[n - 1] == 13 {
            n = n - 1;
        }
    }
    let content = slice_subrange(raw, 0, n);
    assert(content@ =~= strip_terminator(raw@));
    decode_lossy(content)
}

/// Reading a source line by line loses nothing: its lines, joined, are the
/// source.
pub proof fn lemma_lines_rejoin(s: Seq<u8>)
    ensures
        lines_of(s).flatten() == s,
    decreases s.len(),
{
    if s.len() > 0 {
        lemma_line_len_bounds(s);
        let k = line_len(s) as int;
        lemma_lines_rejoin(s.skip(k));
        let ls = lines_of(s);
        assert(ls.drop_first() =~= lines_of(s.skip(k)));
        assert(s.take(k) + s.skip(k) =~= s);
    }
}

} // verus!
