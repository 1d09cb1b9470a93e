//! Tables of texts, with columns side by side.

use vstd::prelude::*;

use crate::text;

verus! {

/// A text with spaces behind it up to a width.
pub open spec fn padded(s: Seq<char>, width: nat) -> Seq<char> {
    s + Seq::new(
        if s.len() < width {
            (width - s.len()) as nat
        } else {
            0
        },
        |i: int| ' ',
    )
}

/// A text with spaces before it up to a width.
pub open spec fn right_padded(s: Seq<char>, width: nat) -> Seq<char> {
    Seq::new(
        if s.len() < width {
            (width - s.len()) as nat
        } else {
            0
        },
        |i: int| ' ',
    ) + s
}

fn spaces(n: usize) -> (r: String)
    ensures
        r@ == Seq::new(n as nat, |i: int| ' '),
{
    let mut s = String::new();
    let mut i: usize = 0;
    while i < n
        invariant
            i <= n,
            s@ == Seq::new(i as nat, |i: int| ' '),
        decreases n - i,
    {
        s.push(' ');
        i += 1;
        assert(s@ =~= Seq::new(i as nat, |i: int| ' '));
    }
    s
}

/// A text with spaces behind it up to a width.
pub fn pad(s: &str, width: usize) -> (r: String)
    ensures
        r@ == padded(s@, width as nat),
{
    let n: usize = text::to_chars(s).len();
    let fill = spaces(
        if n < width {
            width - n
        } else {
            0
        },
    );
    let mut out = s.to_owned();
    out.append(fill.as_str());
    out
}

/// A text with spaces before it up to a width.
pub fn pad_left(s: &str, width: usize) -> (r: String)
    ensures
        r@ == right_padded(s@, width as nat),
{
    let n: usize = text::to_chars(s).len();
    let mut out = spaces(
        if n < width {
            width - n
        } else {
            0
        },
    );
    out.append(s);
    out
}

/// The width of a column: the most bytes of any of its texts, and at least those
/// of its heading.
pub open spec fn column_width(texts: Seq<Seq<char>>, least: nat) -> nat
    decreases texts.len(),
{
    if texts.len() == 0 {
        least
    } else {
        let before = column_width(texts.drop_last(), least);
        let n = vstd::utf8::encode_utf8(texts.last()).len();
        if n > before {
            n
        } else {
            before
        }
    }
}

/// The number of bytes of a text.
pub fn byte_len(s: &str) -> (r: usize)
    ensures
        r == vstd::utf8::encode_utf8(s@).len(),
{
    s.as_bytes().len()
}

/// The wider of two widths.
pub fn wider(a: usize, b: usize) -> (r: usize)
    ensures
        r == if b > a {
            b
        } else {
            a
        },
{
    if b > a {
        b
    } else {
        a
    }
}

} // verus!
