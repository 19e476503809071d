use vstd::prelude::*;
use crate::text::{chars_of, text_of};

verus! {

/// A character that the non-printing view shows in caret notation: the C0
/// controls other than tab and line feed, and DEL.
pub open spec fn is_caret_encoded(c: char) -> bool {
    (c as u32) <= 0x08 || (0x0B <= (c as u32) && (c as u32) <= 0x1F) || (c as u32) == 0x7F
}

/// The letter that follows `^` for a caret-encoded character: the code point
/// moved up by 0x40, with DEL wrapping round to `?`.
pub open spec fn caret_letter(c: char) -> char {
    if (c as u32) == 0x7F {
        '?'
    } else {
        ((c as u32) + 0x40) as char
    }
}

/// How the non-printing view renders one character.
pub open spec fn caret_of(c: char) -> Seq<char> {
    if is_caret_encoded(c) {
        seq!['^', caret_letter(c)]
    } else {
        seq![c]
    }
}

/// Renders one character in caret notation if it is a control character.
pub fn caret_encode(c: char) -> (r: Vec<char>)
    ensures
        r@ == caret_of(c),
{
    let code: u32 = c as u32;
    if code <= 0x08 || (0x0B <= code && code <= 0x1F) || code == 0x7F {
        let letter: char = if code == 0x7F {
            '?'
        } else {
            ((code + 0x40) as u8) as char
        };
        vec!['^', letter]
    } else {
        vec![c]
    }
}

/// The non-printing view of a text: each character rendered by `caret_of`.
pub open spec fn nonprinting_view(s: Seq<char>) -> Seq<char>
    decreases s.len(),
{
    if s.len() == 0 {
        seq![]
    } else {
        nonprinting_view(s.drop_last()) + caret_of(s.last())
    }
}

/// How the tab view renders one character.
pub open spec fn tab_of(c: char) -> Seq<char> {
    if c == '\t' {
        seq!['^', 'I']
    } else {
        seq![c]
    }
}

/// The tab view of a text: each tab shown as `^I`.
pub open spec fn tab_view(s: Seq<char>) -> Seq<char>
    decreases s.len(),
{
    if s.len() == 0 {
        seq![]
    } else {
        tab_view(s.drop_last()) + tab_of(s.last())
    }
}

/// Either view leaves an empty text empty and a non-empty one non-empty.
pub proof fn lemma_views_keep_emptiness(s: Seq<char>)
    ensures
        (nonprinting_view(s).len() == 0) == (s.len() == 0),
        (tab_view(s).len() == 0) == (s.len() == 0),
{
    if s.len() > 0 {
        assert(caret_of(s.last()).len() > 0);
        assert(tab_of(s.last()).len() > 0);
    }
}

/// Shows the control characters of a text in caret notation.
pub fn show_nonprinting(s: &[char]) -> (r: Vec<char>)
    ensures
        r@ == nonprinting_view(s@),
{
    let mut r: Vec<char> = Vec::new();
    let mut i: usize = 0;
    while i < s.len()
        invariant
            i <= s@.len(),
            r@ == nonprinting_view(s@.take(i as int)),
        decreases s@.len() - i,
    {
        let mut enc = caret_encode(s[i]);
        assert(s@.take(i + 1).drop_last() =~= s@.take(i as int));
        r.append(&mut enc);
        i = i + 1;
    }
    assert(s@.take(i as int) =~= s@);
    r
}

/// Shows each tab of a text as `^I`.
pub fn show_tabs(s: &[char]) -> (r: Vec<char>)
    ensures
        r@ == tab_view(s@),
{
    let mut r: Vec<char> = Vec::new();
    let mut i: usize = 0;
    while i < s.len()
        invariant
            i <= s@.len(),
            r@ == tab_view(s@.take(i as int)),
        decreases s@.len() - i,
    {
        assert(s@.take(i + 1).drop_last() =~= s@.take(i as int));
        if s[i] == '\t' {
            r.push('^');
            r.push('I');
        } else {
            r.push(s[i]);
        }
        i = i + 1;
    }
    assert(s@.take(i as int) =~= s@);
    r
}

/// Replaces each non-printing character of a line with its caret encoding;
/// tab and line feed are kept as they are.
pub fn show_nonprinting_chars(line: String) -> (r: String)
    ensures
        r@ == nonprinting_view(line@),
{
    let cs = chars_of(line.as_str());
    let shown = show_nonprinting(cs.as_slice());
    text_of(shown.as_slice())
}

} // verus!
