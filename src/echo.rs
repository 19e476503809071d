use vstd::prelude::*;
use crate::display::text_views;
use crate::text::{chars_of, text_of};

verus! {

/// The words joined with single spaces.
pub open spec fn joined(words: Seq<Seq<char>>) -> Seq<char>
    decreases words.len(),
{
    if words.len() == 0 {
        seq![]
    } else if words.len() == 1 {
        words[0]
    } else {
        joined(words.drop_last()) + seq![' '] + words.last()
    }
}

/// What echo writes: the words joined with single spaces, and a line feed
/// unless it is left out.
pub fn echo_text(text: &Vec<String>, omit_newline: bool) -> (r: String)
    ensures
        r@ == joined(text_views(text@)) + if omit_newline {
            seq![]
        } else {
            seq!['\n']
        },
{
    let mut out: Vec<char> = Vec::new();
    let mut i: usize = 0;
    while i < text.len()
        invariant
            i <= text@.len(),
            out@ == joined(text_views(text@).take(i as int)),
        decreases text@.len() - i,
    {
        let ghost ws = text_views(text@).take(i + 1);
        assert(ws.drop_last() =~= text_views(text@).take(i as int));
        assert(ws.last() == text@[i as int]@);
        if i > 0 {
            out.push(' ');
        } else {
            assert(ws.len() == 1);
        }
        let mut cs = chars_of(text[i].as_str());
        out.append(&mut cs);
        i = i + 1;
        assert(out@ =~= joined(ws));
    }
    assert(text_views(text@).take(i as int) =~= text_views(text@));
    if !omit_newline {
        out.push('\n');
    }
    assert(out@ =~= joined(text_views(text@)) + if omit_newline {
        seq![]
    } else {
        seq!['\n']
    });
    text_of(out.as_slice())
}

} // verus!
