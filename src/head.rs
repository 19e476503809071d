use vstd::prelude::*;
use vstd::slice::{slice_subrange, slice_to_vec};
use crate::text::{chars_of, decode_lossy, lines_of, lossy_text, split_lines, text_of};

verus! {

/// The first `n` bytes of a source, or all of it where it is shorter.
pub fn head_bytes(data: &[u8], n: usize) -> (r: Vec<u8>)
    ensures
        r@.len() == if n < data@.len() { n as int } else { data@.len() as int },
        r@ == data@.take(r@.len() as int),
{
    let k: usize = if n < data.len() {
        n
    } else {
        data.len()
    };
    let r = slice_to_vec(slice_subrange(data, 0, k));
    assert(r@ =~= data@.take(k as int));
    r
}

/// The first `n` bytes of a source as text, invalid sequences replaced.
pub fn head_bytes_text(data: &[u8], n: usize) -> (r: Vec<char>)
    ensures
        r@ == lossy_text(data@.take(if n < data@.len() { n as int } else { data@.len() as int })),
{
    let b = head_bytes(data, n);
    decode_lossy(b.as_slice())
}

pub open spec fn min_len(n: u64, len: nat) -> int {
    if (n as int) < len {
        n as int
    } else {
        len as int
    }
}

/// The first `n` lines of a source, terminators kept, or all of them where
/// it has fewer.
pub fn head_lines(data: &[u8], n: u64) -> (r: Vec<Vec<u8>>)
    ensures
        r@.len() == min_len(n, lines_of(data@).len()),
        forall|i: int| 0 <= i < r@.len() ==> #[trigger] r@[i]@ == lines_of(data@)[i],
{
    let all = split_lines(data);
    let mut r: Vec<Vec<u8>> = Vec::new();
    let mut i: usize = 0;
    while i < all.len() && (i as u64) < n
        invariant
            i <= all@.len(),
            i <= n,
            all@.len() == lines_of(data@).len(),
            forall|j: int| 0 <= j < all@.len() ==> #[trigger] all@[j]@ == lines_of(data@)[j],
            r@.len() == i,
            forall|j: int| 0 <= j < i ==> #[trigger] r@[j]@ == lines_of(data@)[j],
        decreases all@.len() - i,
    {
        assert(all@[i as int]@ == lines_of(data@)[i as int]);
        r.push(slice_to_vec(all[i].as_slice()));
        i = i + 1;
    }
    r
}

/// How many lines of a source may still be shown, read one at a time.
#[derive(Clone, Copy, Debug, PartialEq, Eq)]
pub struct LineLimit {
    pub limit: u64,
    pub taken: u64,
}

impl LineLimit {
    pub fn new(limit: u64) -> (r: LineLimit)
        ensures
            r == (LineLimit { limit, taken: 0 }),
    {
        LineLimit { limit, taken: 0 }
    }

    /// Whether the limit is reached.
    pub fn done(&self) -> (r: bool)
        ensures
            r == (self.taken >= self.limit),
    {
        self.taken >= self.limit
    }

    /// Whether a line just read is shown: it is, unless the source has ended
    /// (an empty read) or the limit is reached.
    pub fn take(&mut self, line: &[u8]) -> (r: bool)
        ensures
            r == (line@.len() > 0 && old(self).taken < old(self).limit),
            final(self).limit == old(self).limit,
            final(self).taken == if r { old(self).taken + 1 } else { old(self).taken as int },
    {
        if line.len() > 0 && self.taken < self.limit {
            self.taken = self.taken + 1;
            true
        } else {
            false
        }
    }
}

/// The header before the output of one source, where there are several:
/// `==> name <==` and a line feed, after a blank line for all but the first.
pub open spec fn header_text(name: Seq<char>, index: usize, sources: usize) -> Seq<char> {
    if sources <= 1 {
        seq![]
    } else {
        (if index > 0 {
            seq!['\n']
        } else {
            seq![]
        }) + seq!['=', '=', '>', ' '] + name + seq![' ', '<', '=', '=', '\n']
    }
}

/// The header before the output of the source at `index` out of `sources`.
pub fn header(name: &str, index: usize, sources: usize) -> (r: String)
    ensures
        r@ == header_text(name@, index, sources),
{
    let mut out: Vec<char> = Vec::new();
    if sources > 1 {
        if index > 0 {
            out.push('\n');
        }
        out.push('=');
        out.push('=');
        out.push('>');
        out.push(' ');
        let mut cs = chars_of(name);
        out.append(&mut cs);
        out.push(' ');
        out.push('<');
        out.push('=');
        out.push('=');
        out.push('\n');
    }
    assert(out@ =~= header_text(name@, index, sources));
    text_of(out.as_slice())
}

} // verus!
