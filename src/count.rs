use vstd::prelude::*;
use vstd::slice::slice_subrange;
use crate::numfmt::{decimal, right_align, right_aligned};
use crate::text::{
    chars_of, decode_lossy, is_space, is_white_space, line_len, lemma_line_len_bounds, lines_of,
    lossy_text, next_line_end, text_of, NEWLINE,
};

verus! {

/// Whether a word starts at position `i` of `s`: a character that is not
/// white space, first in `s` or after white space.
pub open spec fn starts_word(s: Seq<char>, i: int) -> bool {
    !is_white_space(s[i]) && (i == 0 || is_white_space(s[i - 1]))
}

/// The number of words of `s`: its maximal runs of characters that are not
/// white space.
pub open spec fn words(s: Seq<char>) -> nat
    decreases s.len(),
{
    if s.len() == 0 {
        0
    } else {
        words(s.drop_last()) + if starts_word(s, s.len() - 1) {
            1nat
        } else {
            0nat
        }
    }
}

proof fn lemma_words_bound(s: Seq<char>)
    ensures
        words(s) <= s.len(),
    decreases s.len(),
{
    if s.len() > 0 {
        lemma_words_bound(s.drop_last());
    }
}

/// Counts the words of a text, white space of any kind and length
/// separating them.
pub fn count_words(text: &[char]) -> (r: usize)
    ensures
        r == words(text@),
{
    let mut r: usize = 0;
    let mut i: usize = 0;
    let mut prev_space = true;
    while i < text.len()
        invariant
            i <= text@.len(),
            r == words(text@.take(i as int)),
            r <= i,
            i > 0 ==> prev_space == is_white_space(text@[i - 1]),
            i == 0 ==> prev_space,
        decreases text@.len() - i,
    {
        let ghost pre = text@.take(i as int);
        let ghost next = text@.take(i + 1);
        assert(next.drop_last() =~= pre);
        let space = is_space(text[i]);
        assert(starts_word(next, i as int) == (!space && prev_space));
        if !space && prev_space {
            r = r + 1;
        }
        prev_space = space;
        i = i + 1;
    }
    assert(text@.take(i as int) =~= text@);
    r
}

/// The counts of a source, or the totals of several.
#[derive(Clone, Copy, Debug, PartialEq, Eq)]
pub struct FileInfo {
    pub line_count: usize,
    pub word_count: usize,
    pub byte_count: usize,
    pub char_count: usize,
}

/// `a + b`, held at the largest `usize`.
pub open spec fn sat_add(a: usize, b: int) -> usize {
    if a + b <= usize::MAX {
        (a + b) as usize
    } else {
        usize::MAX
    }
}

impl FileInfo {
    pub open spec fn spec_zero() -> FileInfo {
        FileInfo { line_count: 0, word_count: 0, byte_count: 0, char_count: 0 }
    }

    /// All four counts zero.
    pub fn zero() -> (r: FileInfo)
        ensures
            r == Self::spec_zero(),
    {
        FileInfo { line_count: 0, word_count: 0, byte_count: 0, char_count: 0 }
    }

    /// The counts after one more line, read with its terminator.
    pub open spec fn plus_line(self, line: Seq<u8>) -> FileInfo {
        FileInfo {
            line_count: sat_add(self.line_count, 1),
            word_count: sat_add(self.word_count, words(lossy_text(line)) as int),
            byte_count: sat_add(self.byte_count, line.len() as int),
            char_count: sat_add(self.char_count, lossy_text(line).len() as int),
        }
    }

    /// The sum of two sets of counts.
    pub open spec fn plus(self, o: FileInfo) -> FileInfo {
        FileInfo {
            line_count: sat_add(self.line_count, o.line_count as int),
            word_count: sat_add(self.word_count, o.word_count as int),
            byte_count: sat_add(self.byte_count, o.byte_count as int),
            char_count: sat_add(self.char_count, o.char_count as int),
        }
    }

    /// Counts one more line, read with its terminator.
    pub fn add_line(&mut self, line: &[u8])
        ensures
            *final(self) == old(self).plus_line(line@),
    {
        let text = decode_lossy(line);
        let w = count_words(text.as_slice());
        self.line_count = self.line_count.saturating_add(1);
        self.word_count = self.word_count.saturating_add(w);
        self.byte_count = self.byte_count.saturating_add(line.len());
        self.char_count = self.char_count.saturating_add(text.len());
    }

    /// Adds the counts of one source to running totals.
    pub fn add(&mut self, o: &FileInfo)
        ensures
            *final(self) == old(self).plus(*o),
    {
        self.line_count = self.line_count.saturating_add(o.line_count);
        self.word_count = self.word_count.saturating_add(o.word_count);
        self.byte_count = self.byte_count.saturating_add(o.byte_count);
        self.char_count = self.char_count.saturating_add(o.char_count);
    }
}

/// The counts of a sequence of lines, starting from `acc`.
pub open spec fn tally(acc: FileInfo, lines: Seq<Seq<u8>>) -> FileInfo
    decreases lines.len(),
{
    if lines.len() == 0 {
        acc
    } else {
        tally(acc.plus_line(lines[0]), lines.drop_first())
    }
}

/// The counts of a whole source.
pub open spec fn count_source(data: Seq<u8>) -> FileInfo {
    tally(FileInfo::spec_zero(), lines_of(data))
}

/// The number of line feeds in `s`.
pub open spec fn newlines(s: Seq<u8>) -> nat
    decreases s.len(),
{
    if s.len() == 0 {
        0
    } else {
        (if s[0] == NEWLINE {
            1nat
        } else {
            0nat
        }) + newlines(s.drop_first())
    }
}

/// One if `s` ends in a line that lacks a terminator, else zero.
pub open spec fn unterminated(s: Seq<u8>) -> nat {
    if s.len() > 0 && s.last() != NEWLINE {
        1
    } else {
        0
    }
}

proof fn lemma_first_line(s: Seq<u8>)
    requires
        s.len() > 0,
    ensures
        ({
            let k = line_len(s) as int;
            &&& 1 <= k <= s.len()
            &&& newlines(s) == (if s[k - 1] == NEWLINE {
                1nat
            } else {
                0nat
            }) + newlines(s.skip(k))
            &&& k < s.len() ==> s[k - 1] == NEWLINE
        }),
    decreases s.len(),
{
    lemma_line_len_bounds(s);
    let k = line_len(s) as int;
    if s[0] == NEWLINE {
        assert(s.drop_first() =~= s.skip(1));
    } else if s.len() == 1 {
        assert(s.drop_first().len() == 0);
        assert(s.skip(1).len() == 0);
    } else {
        let t = s.drop_first();
        lemma_first_line(t);
        assert(t.skip(k - 1) =~= s.skip(k));
        assert(t[k - 2] == s[k - 1]);
    }
}

/// The number of lines of a source is its number of line feeds, plus one
/// where it ends in a line without a terminator.
pub proof fn lemma_line_count(s: Seq<u8>)
    ensures
        lines_of(s).len() == newlines(s) + unterminated(s),
    decreases s.len(),
{
    if s.len() > 0 {
        lemma_first_line(s);
        let k = line_len(s) as int;
        let rest = s.skip(k);
        lemma_line_count(rest);
        if k < s.len() {
            assert(rest.last() == s.last());
        }
    }
}

/// Counts the lines, words, bytes and characters of a source.
pub fn counter(data: &[u8]) -> (r: FileInfo)
    ensures
        r == count_source(data@),
        r.line_count == lines_of(data@).len(),
        r.line_count == newlines(data@) + unterminated(data@),
        r.byte_count == data@.len(),
{
    let mut r = FileInfo::zero();
    let mut start: usize = 0;
    assert(data@.skip(0) =~= data@);
    while start < data.len()
        invariant
            start <= data@.len(),
            count_source(data@) == tally(r, lines_of(data@.skip(start as int))),
            r.byte_count == start,
            r.line_count + lines_of(data@.skip(start as int)).len() == lines_of(data@).len(),
            r.line_count <= start,
        decreases data@.len() - start,
    {
        let end = next_line_end(data, start);
        let ghost rest = data@.skip(start as int);
        proof {
            lemma_line_len_bounds(rest);
            assert(rest.skip(line_len(rest) as int) =~= data@.skip(end as int));
            assert(rest.take(line_len(rest) as int) =~= data@.subrange(start as int, end as int));
            let ls = lines_of(rest);
            assert(ls == seq![rest.take(line_len(rest) as int)] + lines_of(data@.skip(end as int)));
            assert(ls.drop_first() =~= lines_of(data@.skip(end as int)));
            assert(ls[0] == data@.subrange(start as int, end as int));
        }
        let line = slice_subrange(data, start, end);
        r.add_line(line);
        start = end;
    }
    assert(data@.skip(start as int).len() == 0);
    proof {
        lemma_line_count(data@);
    }
    r
}

/// Which counts a report shows.
#[derive(Clone, Copy, Debug, PartialEq, Eq)]
pub struct CountKinds {
    pub lines: bool,
    pub words: bool,
    pub bytes: bool,
    pub chars: bool,
}

impl CountKinds {
    /// The kinds to show: as chosen, or lines, words and bytes where none was.
    pub fn resolved(&self) -> (r: CountKinds)
        ensures
            (self.lines || self.words || self.bytes || self.chars) ==> r == *self,
            !(self.lines || self.words || self.bytes || self.chars) ==> r == (CountKinds {
                lines: true,
                words: true,
                bytes: true,
                chars: false,
            }),
    {
        if self.lines || self.words || self.bytes || self.chars {
            *self
        } else {
            CountKinds { lines: true, words: true, bytes: true, chars: false }
        }
    }
}

/// One column of a report: the count right-aligned in eight columns, or
/// nothing where it is not shown.
pub open spec fn field(count: usize, show: bool) -> Seq<char> {
    if show {
        right_align(decimal(count as nat), 8)
    } else {
        seq![]
    }
}

/// The columns of a report line, in the order lines, words, bytes,
/// characters.
pub open spec fn fields(info: FileInfo, k: CountKinds) -> Seq<char> {
    field(info.line_count, k.lines) + field(info.word_count, k.words) + field(
        info.byte_count,
        k.bytes,
    ) + field(info.char_count, k.chars)
}

/// What follows the columns of a source's report line: a space and the
/// name, except for standard input.
pub open spec fn name_suffix(name: Seq<char>) -> Seq<char> {
    if name == seq!['-'] {
        seq![]
    } else {
        seq![' '] + name
    }
}

fn push_field(out: &mut Vec<char>, count: usize, show: bool)
    ensures
        final(out)@ == old(out)@ + field(count, show),
{
    if show {
        let mut f = right_aligned(count, 8);
        out.append(&mut f);
    } else {
        assert(old(out)@ + seq![] =~= old(out)@);
    }
}

fn push_fields(out: &mut Vec<char>, info: &FileInfo, k: &CountKinds)
    ensures
        final(out)@ == old(out)@ + fields(*info, *k),
{
    push_field(out, info.line_count, k.lines);
    push_field(out, info.word_count, k.words);
    push_field(out, info.byte_count, k.bytes);
    push_field(out, info.char_count, k.chars);
    assert(final(out)@ =~= old(out)@ + fields(*info, *k));
}

/// One column of a report, as text.
pub fn format_output(count: usize, show: bool) -> (r: String)
    ensures
        r@ == field(count, show),
{
    let mut out: Vec<char> = Vec::new();
    push_field(&mut out, count, show);
    assert(out@ =~= field(count, show));
    text_of(out.as_slice())
}

/// The report line of one source.
pub fn report_line(info: &FileInfo, k: &CountKinds, name: &str) -> (r: String)
    ensures
        r@ == fields(*info, *k) + name_suffix(name@),
{
    let mut out: Vec<char> = Vec::new();
    push_fields(&mut out, info, k);
    let mut cs = chars_of(name);
    if cs.len() == 1 && cs[0] == '-' {
        assert(cs@ =~= seq!['-']);
        assert(out@ =~= fields(*info, *k) + name_suffix(name@));
    } else {
        assert(name@ != seq!['-']);
        out.push(' ');
        out.append(&mut cs);
        assert(out@ =~= fields(*info, *k) + name_suffix(name@));
    }
    text_of(out.as_slice())
}

/// The totals line that follows the reports of several sources.
pub fn total_line(info: &FileInfo, k: &CountKinds) -> (r: String)
    ensures
        r@ == fields(*info, *k) + seq![' ', 't', 'o', 't', 'a', 'l'],
{
    let mut out: Vec<char> = Vec::new();
    push_fields(&mut out, info, k);
    out.push(' ');
    out.push('t');
    out.push('o');
    out.push('t');
    out.push('a');
    out.push('l');
    assert(out@ =~= fields(*info, *k) + seq![' ', 't', 'o', 't', 'a', 'l']);
    text_of(out.as_slice())
}

/// A text of white space alone has no words.
pub proof fn lemma_blank_has_no_words(s: Seq<char>)
    requires
        forall|i: int| 0 <= i < s.len() ==> is_white_space(#[trigger] s[i]),
    ensures
        words(s) == 0,
    decreases s.len(),
{
    if s.len() > 0 {
        let t = s.drop_last();
        assert forall|i: int| 0 <= i < t.len() implies is_white_space(#[trigger] t[i]) by {
            assert(t[i] == s[i]);
        }
        lemma_blank_has_no_words(t);
    }
}

/// Counting is repeatable: the same source gives the same counts.
pub proof fn lemma_count_repeatable(a: Seq<u8>, b: Seq<u8>)
    requires
        a == b,
    ensures
        count_source(a) == count_source(b),
{
}

} // verus!
