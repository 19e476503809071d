use vstd::prelude::*;
use vstd::slice::slice_to_vec;
use crate::caret::{lemma_views_keep_emptiness, nonprinting_view, show_nonprinting, show_tabs, tab_view};
use crate::numfmt::{decimal, right_align, right_aligned};
use crate::text::{chars_of, logical_line, lossy_text, strip_terminator, text_of};

verus! {

/// The options of the display tool, as given: the three combined switches
/// are expanded by `expanded` before any line is shown.
#[derive(Clone, Copy, Debug, PartialEq, Eq)]
pub struct DisplayOptions {
    pub show_all: bool,
    pub number_nonblank_lines: bool,
    pub show_nonprint_ends: bool,
    pub show_ends: bool,
    pub number_lines: bool,
    pub squeeze_blank: bool,
    pub show_nonprint_tabs: bool,
    pub show_tabs: bool,
    pub show_nonprinting: bool,
}

impl DisplayOptions {
    /// Options with every switch off.
    pub open spec fn spec_plain() -> DisplayOptions {
        DisplayOptions {
            show_all: false,
            number_nonblank_lines: false,
            show_nonprint_ends: false,
            show_ends: false,
            number_lines: false,
            squeeze_blank: false,
            show_nonprint_tabs: false,
            show_tabs: false,
            show_nonprinting: false,
        }
    }

    /// Options with every switch off.
    pub fn plain() -> (r: DisplayOptions)
        ensures
            r == Self::spec_plain(),
    {
        DisplayOptions {
            show_all: false,
            number_nonblank_lines: false,
            show_nonprint_ends: false,
            show_ends: false,
            number_lines: false,
            squeeze_blank: false,
            show_nonprint_tabs: false,
            show_tabs: false,
            show_nonprinting: false,
        }
    }

    /// The options with the combined switches spelled out: show-all means
    /// non-printing, ends and tabs; `-e` non-printing and ends; `-t`
    /// non-printing and tabs.
    pub fn expanded(&self) -> (r: DisplayOptions)
        ensures
            r.show_nonprinting == (self.show_nonprinting || self.show_all
                || self.show_nonprint_ends || self.show_nonprint_tabs),
            r.show_ends == (self.show_ends || self.show_all || self.show_nonprint_ends),
            r.show_tabs == (self.show_tabs || self.show_all || self.show_nonprint_tabs),
            r.show_all == self.show_all,
            r.show_nonprint_ends == self.show_nonprint_ends,
            r.show_nonprint_tabs == self.show_nonprint_tabs,
            r.number_lines == self.number_lines,
            r.number_nonblank_lines == self.number_nonblank_lines,
            r.squeeze_blank == self.squeeze_blank,
    {
        let mut r = *self;
        if self.show_all {
            r.show_nonprinting = true;
            r.show_ends = true;
            r.show_tabs = true;
        }
        if self.show_nonprint_ends {
            r.show_nonprinting = true;
            r.show_ends = true;
        }
        if self.show_nonprint_tabs {
            r.show_nonprinting = true;
            r.show_tabs = true;
        }
        r
    }
}

/// A line's text after the tab view and then the non-printing view, as the
/// options ask.
pub open spec fn transformed(o: DisplayOptions, line: Seq<char>) -> Seq<char> {
    let t = if o.show_tabs {
        tab_view(line)
    } else {
        line
    };
    if o.show_nonprinting {
        nonprinting_view(t)
    } else {
        t
    }
}

/// Whether a shown line with text `t` gets a number.
pub open spec fn is_numbered(o: DisplayOptions, t: Seq<char>) -> bool {
    o.number_lines || (o.number_nonblank_lines && t.len() > 0)
}

/// The line counter after one more numbered line; it stays at its largest
/// value.
pub open spec fn next_count(c: usize) -> usize {
    if c < usize::MAX {
        (c + 1) as usize
    } else {
        c
    }
}

/// How a shown line with text `t` is written: the number right-aligned in six
/// columns and a tab where it is numbered, the text, `$` where ends are
/// shown, and a line feed.
pub open spec fn rendered(o: DisplayOptions, count: usize, t: Seq<char>) -> Seq<char> {
    (if is_numbered(o, t) {
        right_align(decimal(count as nat), 6).push('\t')
    } else {
        seq![]
    }) + t + (if o.show_ends {
        seq!['$']
    } else {
        seq![]
    }) + seq!['\n']
}

/// The state of one run of the display tool, carried from line to line and
/// from one source to the next.
#[derive(Clone, Copy, Debug, PartialEq, Eq)]
pub struct DisplayState {
    /// Whether the last line seen was blank.
    pub last_blank: bool,
    /// The number the next numbered line gets.
    pub count: usize,
}

pub open spec fn text_views(v: Seq<String>) -> Seq<Seq<char>> {
    v.map_values(|s: String| s@)
}

pub open spec fn shown_view(r: Option<Vec<char>>) -> Option<Seq<char>> {
    match r {
        Some(v) => Some(v@),
        None => None,
    }
}

pub open spec fn shown_text(r: Option<String>) -> Option<Seq<char>> {
    match r {
        Some(v) => Some(v@),
        None => None,
    }
}

pub open spec fn shown_texts(v: Seq<Option<String>>) -> Seq<Option<Seq<char>>> {
    v.map_values(|r: Option<String>| shown_text(r))
}

impl DisplayState {
    pub open spec fn suppresses(self, o: DisplayOptions, t: Seq<char>) -> bool {
        o.squeeze_blank && t.len() == 0 && self.last_blank
    }

    /// What a line gives: `None` where squeezing drops it.
    pub open spec fn output(self, o: DisplayOptions, line: Seq<char>) -> Option<Seq<char>> {
        let t = transformed(o, line);
        if self.suppresses(o, t) {
            None
        } else {
            Some(rendered(o, self.count, t))
        }
    }

    /// The state after a line.
    pub open spec fn after(self, o: DisplayOptions, line: Seq<char>) -> DisplayState {
        let t = transformed(o, line);
        if self.suppresses(o, t) {
            self
        } else {
            DisplayState {
                last_blank: t.len() == 0,
                count: if is_numbered(o, t) {
                    next_count(self.count)
                } else {
                    self.count
                },
            }
        }
    }

    /// The state at the start of a new source: numbering starts again, the
    /// blank flag is kept.
    pub open spec fn restarted(self) -> DisplayState {
        DisplayState { last_blank: self.last_blank, count: 1 }
    }

    /// The state at the start of a run.
    pub fn new() -> (r: DisplayState)
        ensures
            r == (DisplayState { last_blank: false, count: 1 }),
    {
        DisplayState { last_blank: false, count: 1 }
    }

    /// Begins a new source.
    pub fn start_source(&mut self)
        ensures
            *final(self) == old(self).restarted(),
    {
        self.count = 1;
    }

    /// Shows one line given as text without its terminator; `None` where
    /// squeezing drops it.
    pub fn show_line(&mut self, o: &DisplayOptions, line: &[char]) -> (r: Option<Vec<char>>)
        ensures
            shown_view(r) == old(self).output(*o, line@),
            *final(self) == old(self).after(*o, line@),
    {
        let tabbed = if o.show_tabs {
            show_tabs(line)
        } else {
            slice_to_vec(line)
        };
        let t = if o.show_nonprinting {
            show_nonprinting(tabbed.as_slice())
        } else {
            tabbed
        };
        assert(t@ == transformed(*o, line@));
        if o.squeeze_blank && t.len() == 0 && self.last_blank {
            return None;
        }
        let numbered = o.number_lines || (o.number_nonblank_lines && t.len() > 0);
        let mut out: Vec<char> = Vec::new();
        if numbered {
            out = right_aligned(self.count, 6);
            out.push('\t');
            self.count = self.count.saturating_add(1);
        }
        let ghost prefix = out@;
        let mut i: usize = 0;
        while i < t.len()
            invariant
                i <= t@.len(),
                out@ == prefix + t@.take(i as int),
            decreases t@.len() - i,
        {
            out.push(t[i]);
            i = i + 1;
            assert(out@ =~= prefix + t@.take(i as int));
        }
        assert(t@.take(i as int) =~= t@);
        if o.show_ends {
            out.push('$');
        }
        out.push('\n');
        self.last_blank = t.len() == 0;
        Some(out)
    }

    /// Shows one line as read from a source, terminator included.
    pub fn display_line(&mut self, o: &DisplayOptions, raw: &[u8]) -> (r: Option<String>)
        ensures
            shown_text(r) == old(self).output(*o, lossy_text(strip_terminator(raw@))),
            *final(self) == old(self).after(*o, lossy_text(strip_terminator(raw@))),
    {
        let text = logical_line(raw);
        match self.show_line(o, text.as_slice()) {
            Some(v) => Some(text_of(v.as_slice())),
            None => None,
        }
    }

    /// Shows the lines of one source in order, each given without its
    /// terminator.
    pub fn display_source(&mut self, o: &DisplayOptions, lines: &Vec<String>) -> (r: Vec<
        Option<String>,
    >)
        ensures
            shown_texts(r@) == run_outputs(*o, *old(self), text_views(lines@)),
            *final(self) == run_state(*o, *old(self), text_views(lines@)),
    {
        let ghost start = *self;
        let mut r: Vec<Option<String>> = Vec::new();
        let mut i: usize = 0;
        while i < lines.len()
            invariant
                i <= lines@.len(),
                shown_texts(r@) == run_outputs(*o, start, text_views(lines@).take(i as int)),
                *self == run_state(*o, start, text_views(lines@).take(i as int)),
            decreases lines@.len() - i,
        {
            let cs = chars_of(lines[i].as_str());
            let shown = match self.show_line(o, cs.as_slice()) {
                Some(v) => Some(text_of(v.as_slice())),
                None => None,
            };
            let ghost before = r@;
            r.push(shown);
            proof {
                let all = text_views(lines@);
                assert(all.take(i + 1).drop_last() =~= all.take(i as int));
                assert(all.take(i + 1).last() == lines@[i as int]@);
                assert(shown_texts(r@) =~= shown_texts(before).push(shown_text(shown)));
            }
            i = i + 1;
        }
        assert(text_views(lines@).take(i as int) =~= text_views(lines@));
        r
    }
}

/// What each line of a source gives, from state `st`.
pub open spec fn run_outputs(o: DisplayOptions, st: DisplayState, lines: Seq<Seq<char>>) -> Seq<
    Option<Seq<char>>,
>
    decreases lines.len(),
{
    if lines.len() == 0 {
        seq![]
    } else {
        run_outputs(o, st, lines.drop_last()).push(
            run_state(o, st, lines.drop_last()).output(o, lines.last()),
        )
    }
}

/// The state after the lines of a source, from state `st`.
pub open spec fn run_state(o: DisplayOptions, st: DisplayState, lines: Seq<Seq<char>>) -> DisplayState
    decreases lines.len(),
{
    if lines.len() == 0 {
        st
    } else {
        run_state(o, st, lines.drop_last()).after(o, lines.last())
    }
}

/// The run over a prefix of the lines gives the prefix of the outputs.
pub proof fn lemma_run_prefix(o: DisplayOptions, st: DisplayState, lines: Seq<Seq<char>>, i: int)
    requires
        0 <= i < lines.len(),
    ensures
        run_outputs(o, st, lines).len() == lines.len(),
        run_outputs(o, st, lines)[i] == run_state(o, st, lines.take(i)).output(o, lines[i]),
    decreases lines.len(),
{
    if i < lines.len() - 1 {
        lemma_run_prefix(o, st, lines.drop_last(), i);
        assert(lines.drop_last().take(i) =~= lines.take(i));
    } else {
        assert(lines.drop_last() =~= lines.take(i));
        lemma_run_len(o, st, lines.drop_last());
    }
}

proof fn lemma_run_len(o: DisplayOptions, st: DisplayState, lines: Seq<Seq<char>>)
    ensures
        run_outputs(o, st, lines).len() == lines.len(),
    decreases lines.len(),
{
    if lines.len() > 0 {
        lemma_run_len(o, st, lines.drop_last());
    }
}

/// After at least one line, the blank flag tells whether the last line was
/// empty.
pub proof fn lemma_last_blank(o: DisplayOptions, st: DisplayState, lines: Seq<Seq<char>>)
    requires
        lines.len() > 0,
    ensures
        run_state(o, st, lines).last_blank == (lines.last().len() == 0),
{
    lemma_views_keep_emptiness(lines.last());
    lemma_views_keep_emptiness(tab_view(lines.last()));
}

/// With no option active, each line is shown as it is, followed by a line
/// feed.
pub proof fn lemma_plain_display_reproduces(st: DisplayState, lines: Seq<Seq<char>>)
    ensures
        run_outputs(DisplayOptions::spec_plain(), st, lines).len() == lines.len(),
        forall|i: int|
            0 <= i < lines.len() ==> #[trigger] run_outputs(DisplayOptions::spec_plain(), st, lines)[i]
                == Some(lines[i].push('\n')),
{
    lemma_run_len(DisplayOptions::spec_plain(), st, lines);
    assert forall|i: int| 0 <= i < lines.len() implies #[trigger] run_outputs(
        DisplayOptions::spec_plain(),
        st,
        lines,
    )[i] == Some(lines[i].push('\n')) by {
        lemma_run_prefix(DisplayOptions::spec_plain(), st, lines, i);
        assert(seq![] + lines[i] + seq![] + seq!['\n'] =~= lines[i].push('\n'));
    }
}

/// Squeezing across two sources: where the first ends in a run of `k >= 2`
/// blank lines after a non-blank one and the second, shown next, begins with
/// `m >= 1` blank lines, only the first blank line of the whole run is shown.
pub proof fn lemma_squeeze_across_sources(
    o: DisplayOptions,
    st: DisplayState,
    a: Seq<Seq<char>>,
    b: Seq<Seq<char>>,
    k: int,
    m: int,
)
    requires
        o.squeeze_blank,
        2 <= k < a.len(),
        1 <= m <= b.len(),
        a[a.len() - k - 1].len() > 0,
        forall|i: int| a.len() - k <= i < a.len() ==> #[trigger] a[i].len() == 0,
        forall|i: int| 0 <= i < m ==> #[trigger] b[i].len() == 0,
    ensures
        ({
            let out_a = run_outputs(o, st, a);
            let out_b = run_outputs(o, run_state(o, st, a).restarted(), b);
            &&& out_a[a.len() - k] is Some
            &&& forall|i: int| a.len() - k < i < a.len() ==> #[trigger] out_a[i] is None
            &&& forall|i: int| 0 <= i < m ==> #[trigger] out_b[i] is None
        }),
{
    let first = a.len() - k;
    lemma_run_prefix(o, st, a, first);
    lemma_last_blank(o, st, a.take(first));
    lemma_views_keep_emptiness(a[first]);
    lemma_views_keep_emptiness(tab_view(a[first]));
    assert forall|i: int| a.len() - k < i < a.len() implies #[trigger] run_outputs(o, st, a)[i] is None by {
        lemma_run_prefix(o, st, a, i);
        lemma_last_blank(o, st, a.take(i));
        lemma_views_keep_emptiness(a[i]);
        lemma_views_keep_emptiness(tab_view(a[i]));
    }
    let sb = run_state(o, st, a).restarted();
    lemma_last_blank(o, st, a);
    assert forall|i: int| 0 <= i < m implies #[trigger] run_outputs(o, sb, b)[i] is None by {
        lemma_run_prefix(o, sb, b, i);
        if i > 0 {
            lemma_last_blank(o, sb, b.take(i));
        } else {
            assert(b.take(0) =~= Seq::<Seq<char>>::empty());
        }
        lemma_views_keep_emptiness(b[i]);
        lemma_views_keep_emptiness(tab_view(b[i]));
    }
}

} // verus!
