use vstd::prelude::*;
use vstd::string::StringExecFns;

use crate::chars::push_char;

verus! {

/// A half-open range `[start, end)` of character offsets into some text.
///
/// Construction does not forbid a backward span (`start > end`); the
/// orientation predicates report it.
#[derive(Debug, Clone, Copy, PartialEq, Eq, Structural)]
pub struct Span {
    pub start: usize,
    pub end: usize,
}

impl Span {
    /// The span is well oriented: it does not run backward.
    pub open spec fn is_perfect(self) -> bool {
        self.start <= self.end
    }

    /// Number of offsets covered by a well-oriented span.
    pub open spec fn length(self) -> int {
        self.end - self.start
    }

    /// The span as text: `Span: (start, end)`.
    pub open spec fn text(self) -> Seq<char> {
        "Span: ("@ + decimal(self.start as nat) + ", "@ + decimal(self.end as nat) + ")"@
    }

    pub fn new(start: usize, end: usize) -> (r: Span)
        ensures
            r == (Span { start, end }),
    {
        Span { start, end }
    }

    /// Length of the span; a backward span has no length.
    pub fn len(&self) -> (r: usize)
        requires
            self.is_perfect(),
        ensures
            r == self.length(),
    {
        self.end - self.start
    }

    /// The span is zero-width. A one-character span is not empty.
    pub fn is_empty(&self) -> (r: bool)
        ensures
            r == (self.start == self.end),
    {
        self.start == self.end
    }

    /// The characters of `string` that the span covers, as a new string.
    ///
    /// Offsets are character offsets; the span must lie inside `string`.
    pub fn slice_and_dice(&self, string: &String) -> (r: String)
        requires
            self.start <= self.end <= string@.len(),
        ensures
            r@ == string@.subrange(self.start as int, self.end as int),
    {
        string.as_str().substring_char(self.start, self.end).to_owned()
    }

    pub fn perfect(&self) -> (r: bool)
        ensures
            r == self.is_perfect(),
    {
        self.start <= self.end
    }

    pub fn to_string(&self) -> (r: String)
        ensures
            r@ == self.text(),
    {
        let mut r = String::from_str("Span: (");
        push_decimal(&mut r, self.start);
        r.append(", ");
        push_decimal(&mut r, self.end);
        r.append(")");
        r
    }

    /// The start lies past the end.
    pub fn backward(&self) -> (r: bool)
        ensures
            r == (self.start > self.end),
    {
        self.start > self.end
    }

    /// The start lies strictly before the end.
    pub fn forward(&self) -> (r: bool)
        ensures
            r == (self.start < self.end),
    {
        self.start < self.end
    }
}

/// The decimal digits of `n`, most significant first, without leading zeros.
pub open spec fn decimal(n: nat) -> Seq<char>
    decreases n,
{
    if n < 10 {
        seq![digit(n)]
    } else {
        decimal(n / 10).push(digit(n % 10))
    }
}

pub open spec fn digit(d: nat) -> char {
    ((d + 48) as u32) as char
}

/// Appends the decimal digits of `n`.
pub fn push_decimal(s: &mut String, n: usize)
    ensures
        final(s)@ == old(s)@ + decimal(n as nat),
    decreases n,
{
    if n >= 10 {
        push_decimal(s, n / 10);
    }
    push_char(s, digit_char(n % 10));
    assert(s@ =~= old(s)@ + decimal(n as nat));
}

fn digit_char(d: usize) -> (c: char)
    requires
        d < 10,
    ensures
        c == digit(d as nat),
{
    if d == 0 {
        '0'
    } else if d == 1 {
        '1'
    } else if d == 2 {
        '2'
    } else if d == 3 {
        '3'
    } else if d == 4 {
        '4'
    } else if d == 5 {
        '5'
    } else if d == 6 {
        '6'
    } else if d == 7 {
        '7'
    } else if d == 8 {
        '8'
    } else {
        '9'
    }
}

/// A span built from `start <= end` is well oriented, and its length is
/// `end - start`.
pub proof fn lemma_ordered_span_is_perfect(start: usize, end: usize)
    requires
        start <= end,
    ensures
        (Span { start, end }).is_perfect(),
        (Span { start, end }).length() == end - start,
{
}

} // verus!
