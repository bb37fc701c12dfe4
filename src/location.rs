use vstd::prelude::*;
use crate::language::string_of;

verus! {

/// A span in a file: 0-indexed rows and columns, the end one past the last
/// character covered. Ordered by start, then by end.
#[derive(Clone, Copy, Debug, PartialEq, Eq, Structural, Hash, PartialOrd, Ord)]
pub struct Location {
    pub start_row: usize,
    pub start_column: usize,
    pub end_row: usize,
    pub end_column: usize,
}

pub open spec fn cmp_int(a: int, b: int) -> int {
    if a < b {
        -1
    } else if a > b {
        1
    } else {
        0
    }
}

/// The order of locations: -1, 0 or 1 as `a` is before, equal to or after `b`.
pub open spec fn location_cmp(a: Location, b: Location) -> int {
    if a.start_row != b.start_row {
        cmp_int(a.start_row as int, b.start_row as int)
    } else if a.start_column != b.start_column {
        cmp_int(a.start_column as int, b.start_column as int)
    } else if a.end_row != b.end_row {
        cmp_int(a.end_row as int, b.end_row as int)
    } else {
        cmp_int(a.end_column as int, b.end_column as int)
    }
}

pub open spec fn digit(d: nat) -> char {
    seq!['0', '1', '2', '3', '4', '5', '6', '7', '8', '9'][d as int]
}

/// The decimal digits of a number.
pub open spec fn decimal(n: nat) -> Seq<char>
    decreases n,
{
    if n < 10 {
        seq![digit(n)]
    } else {
        decimal(n / 10).push(digit(n % 10))
    }
}

/// The display form `[start_row, start_column] - [end_row, end_column]`.
pub open spec fn location_text(l: Location) -> Seq<char> {
    seq!['['] + decimal(l.start_row as nat) + seq![',', ' '] + decimal(l.start_column as nat)
        + seq![']', ' ', '-', ' ', '['] + decimal(l.end_row as nat) + seq![',', ' ']
        + decimal(l.end_column as nat) + seq![']']
}

fn digit_exec(d: usize) -> (c: char)
    requires
        d < 10,
    ensures
        c == digit(d as nat),
{
    let digits: [char; 10] = ['0', '1', '2', '3', '4', '5', '6', '7', '8', '9'];
    proof {
        assert(digits@ =~= seq!['0', '1', '2', '3', '4', '5', '6', '7', '8', '9']);
    }
    digits[d]
}

/// Appends the decimal digits of `n`.
pub fn push_decimal(out: &mut Vec<char>, n: usize)
    ensures
        final(out)@ == old(out)@ + decimal(n as nat),
    decreases n,
{
    if n < 10 {
        out.push(digit_exec(n));
        assert(final(out)@ =~= old(out)@ + decimal(n as nat));
    } else {
        push_decimal(out, n / 10);
        out.push(digit_exec(n % 10));
        assert(out@ =~= old(out)@ + decimal(n as nat));
    }
}

impl Location {
    pub fn new(start_row: usize, start_column: usize, end_row: usize, end_column: usize) -> (r:
        Location)
        ensures
            r == (Location { start_row, start_column, end_row, end_column }),
    {
        Location { start_row, start_column, end_row, end_column }
    }

    /// Compares two locations: -1, 0 or 1.
    pub fn compare(&self, other: &Location) -> (r: i8)
        ensures
            r as int == location_cmp(*self, *other),
    {
        if self.start_row != other.start_row {
            if self.start_row < other.start_row { -1 } else { 1 }
        } else if self.start_column != other.start_column {
            if self.start_column < other.start_column { -1 } else { 1 }
        } else if self.end_row != other.end_row {
            if self.end_row < other.end_row { -1 } else { 1 }
        } else if self.end_column != other.end_column {
            if self.end_column < other.end_column { -1 } else { 1 }
        } else {
            0
        }
    }

    /// Appends the display form.
    pub fn push_text(&self, out: &mut Vec<char>)
        ensures
            final(out)@ == old(out)@ + location_text(*self),
    {
        out.push('[');
        push_decimal(out, self.start_row);
        out.push(',');
        out.push(' ');
        push_decimal(out, self.start_column);
        out.push(']');
        out.push(' ');
        out.push('-');
        out.push(' ');
        out.push('[');
        push_decimal(out, self.end_row);
        out.push(',');
        out.push(' ');
        push_decimal(out, self.end_column);
        out.push(']');
        assert(out@ =~= old(out)@ + location_text(*self));
    }

    /// The display form `[start_row, start_column] - [end_row, end_column]`.
    pub fn to_text(&self) -> (r: String)
        ensures
            r@ == location_text(*self),
    {
        let mut v: Vec<char> = Vec::new();
        self.push_text(&mut v);
        assert(v@ =~= location_text(*self));
        string_of(&v, 0, v.len())
    }
}

pub proof fn lemma_location_cmp(a: Location, b: Location, c: Location)
    ensures
        location_cmp(a, b) == -location_cmp(b, a),
        location_cmp(a, b) == 0 ==> a == b,
        -1 <= location_cmp(a, b) <= 1,
        location_cmp(a, b) <= 0 && location_cmp(b, c) <= 0 ==> location_cmp(a, c) <= 0,
        location_cmp(a, b) < 0 && location_cmp(b, c) <= 0 ==> location_cmp(a, c) < 0,
{
}

} // verus!
