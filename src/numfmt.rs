use vstd::prelude::*;

verus! {

/// The decimal digit character for `d`, which is below ten.
pub open spec fn digit_char(d: nat) -> char {
    ((d + 48) as u8) as char
}

/// The decimal representation of `n`, without leading zeros.
pub open spec fn decimal(n: nat) -> Seq<char>
    decreases n,
{
    if n < 10 {
        seq![digit_char(n)]
    } else {
        decimal(n / 10).push(digit_char(n % 10))
    }
}

/// `s` right-aligned in a field of `width` characters: padded on the left
/// with spaces, never cut.
pub open spec fn right_align(s: Seq<char>, width: nat) -> Seq<char> {
    if s.len() >= width {
        s
    } else {
        Seq::new((width - s.len()) as nat, |i: int| ' ') + s
    }
}

/// The decimal digits of `n`.
pub fn decimal_digits(n: usize) -> (r: Vec<char>)
    ensures
        r@ == decimal(n as nat),
    decreases n,
{
    let d: char = ((n % 10) as u8 + 48u8) as char;
    if n < 10 {
        vec![d]
    } else {
        let mut r = decimal_digits(n / 10);
        r.push(d);
        r
    }
}

/// `n` in decimal, right-aligned in a field of `width` characters.
pub fn right_aligned(n: usize, width: usize) -> (r: Vec<char>)
    ensures
        r@ == right_align(decimal(n as nat), width as nat),
{
    let digits = decimal_digits(n);
    if digits.len() >= width {
        return digits;
    }
    let pad: usize = width - digits.len();
    let mut r: Vec<char> = Vec::new();
    let mut i: usize = 0;
    while i < pad
        invariant
            i <= pad,
            pad == width - digits@.len(),
            r@ == Seq::new(i as nat, |j: int| ' '),
        decreases pad - i,
    {
        r.push(' ');
        i = i + 1;
        assert(r@ =~= Seq::new(i as nat, |j: int| ' '));
    }
    let mut digits = digits;
    r.append(&mut digits);
    r
}

} // verus!
