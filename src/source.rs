use vstd::prelude::*;
use crate::display::text_views;
use crate::text::{chars_of, text_of};

verus! {

/// The name that stands for standard input.
pub open spec fn stdin_name() -> Seq<char> {
    seq!['-']
}

/// Whether a source name stands for standard input.
pub fn is_stdin(name: &str) -> (r: bool)
    ensures
        r == (name@ == stdin_name()),
{
    let cs = chars_of(name);
    if cs.len() == 1 && cs[0] == '-' {
        assert(cs@ =~= stdin_name());
        true
    } else {
        false
    }
}

/// The sources to read: those named, or standard input alone where none is.
pub fn resolve_sources(names: Vec<String>) -> (r: Vec<String>)
    ensures
        names@.len() > 0 ==> r@ == names@,
        names@.len() == 0 ==> text_views(r@) == seq![stdin_name()],
{
    if names.len() > 0 {
        names
    } else {
        let dash_chars: Vec<char> = vec!['-'];
        let dash = text_of(dash_chars.as_slice());
        assert(dash@ =~= stdin_name());
        let r = vec![dash];
        assert(text_views(r@) =~= seq![stdin_name()]);
        r
    }
}

/// The diagnostic for a source that could not be opened: its name, a colon,
/// a space and the cause.
pub fn open_failure(name: &str, cause: &str) -> (r: String)
    ensures
        r@ == name@ + seq![':', ' '] + cause@,
{
    let mut out = chars_of(name);
    out.push(':');
    out.push(' ');
    let mut c = chars_of(cause);
    out.append(&mut c);
    text_of(out.as_slice())
}

} // verus!
