//! The report of one run and its textual form.

use vstd::prelude::*;
use vstd::string::StringExecFns;
use crate::buffer::pattern_bytes;
use crate::stats::{newline_count, occurrence_count, word_count};

verus! {

/// The three statistics of one buffer.
#[derive(Clone, Copy, Debug, PartialEq, Eq, Structural)]
pub struct Report {
    pub lines: usize,
    pub words: usize,
    pub patterns: usize,
}

/// `r` holds the statistics of the bytes `s`.
pub open spec fn reports(r: Report, s: Seq<u8>) -> bool {
    &&& r.lines == newline_count(s)
    &&& r.words == word_count(s)
    &&& r.patterns == occurrence_count(s, pattern_bytes())
}

/// The decimal digit characters, by value.
pub open spec fn digit_chars() -> Seq<char> {
    seq!['0', '1', '2', '3', '4', '5', '6', '7', '8', '9']
}

/// The decimal numeral of `n`, without leading zeros.
pub open spec fn decimal(n: nat) -> Seq<char>
    decreases n,
{
    if n < 10 {
        seq![digit_chars()[n as int]]
    } else {
        decimal(n / 10) + seq![digit_chars()[(n % 10) as int]]
    }
}

/// The six-line text of a report: a start line, the three labelled counts
/// and an end line, each ending in a newline.
pub open spec fn report_text(r: Report) -> Seq<char> {
    "----- REPORT START -----\n"@
        + "Lines: "@ + decimal(r.lines as nat) + "\n"@
        + "Words: "@ + decimal(r.words as nat) + "\n"@
        + "Pattern occurrences: "@ + decimal(r.patterns as nat) + "\n"@
        + "------ REPORT END ------\n"@
}

/// The one-character string of the digit `d`.
fn digit_str(d: usize) -> (s: &'static str)
    requires
        d < 10,
    ensures
        s@ == seq![digit_chars()[d as int]],
{
    proof {
        reveal_strlit("0");
        reveal_strlit("1");
        reveal_strlit("2");
        reveal_strlit("3");
        reveal_strlit("4");
        reveal_strlit("5");
        reveal_strlit("6");
        reveal_strlit("7");
        reveal_strlit("8");
        reveal_strlit("9");
    }
    let s = match d {
        0 => "0",
        1 => "1",
        2 => "2",
        3 => "3",
        4 => "4",
        5 => "5",
        6 => "6",
        7 => "7",
        8 => "8",
        _ => "9",
    };
    assert(s@ =~= seq![digit_chars()[d as int]]);
    s
}

/// Appends the decimal numeral of `n` to `out`.
pub fn push_decimal(out: &mut String, n: usize)
    ensures
        final(out)@ == old(out)@ + decimal(n as nat),
    decreases n,
{
    if n >= 10 {
        push_decimal(out, n / 10);
    }
    out.append(digit_str(n % 10));
    assert(out@ =~= old(out)@ + decimal(n as nat));
}

impl Report {
    /// The report as text, ready to print.
    pub fn render(&self) -> (s: String)
        ensures
            s@ == report_text(*self),
    {
        let mut s = String::from_str("----- REPORT START -----\n");
        s.append("Lines: ");
        push_decimal(&mut s, self.lines);
        s.append("\n");
        s.append("Words: ");
        push_decimal(&mut s, self.words);
        s.append("\n");
        s.append("Pattern occurrences: ");
        push_decimal(&mut s, self.patterns);
        s.append("\n");
        s.append("------ REPORT END ------\n");
        assert(s@ =~= report_text(*self));
        s
    }
}

} // verus!
