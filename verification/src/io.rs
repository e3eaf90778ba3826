//! What a run of a search reports: which lines it prints, whether it marks
//! and writes the haystack, and how each line reads.

use crate::geometry::{Extent, Position};
use crate::matrix::Match;
use vstd::prelude::*;
use vstd::string::StringExecFns;

verus! {

/// The decimal digit of a number below ten.
pub open spec fn digit(d: int) -> char {
    if d == 0 {
        '0'
    } else if d == 1 {
        '1'
    } else if d == 2 {
        '2'
    } else if d == 3 {
        '3'
    } else if d == 4 {
        '4'
    } else if d == 5 {
        '5'
    } else if d == 6 {
        '6'
    } else if d == 7 {
        '7'
    } else if d == 8 {
        '8'
    } else {
        '9'
    }
}

/// The decimal digits of a natural number, without leading zeros.
pub open spec fn digits(n: nat) -> Seq<char>
    decreases n,
{
    if n < 10 {
        seq![digit(n as int)]
    } else {
        digits(n / 10).push(digit((n % 10) as int))
    }
}

/// An integer in decimal, with a minus sign in front of a negative one.
pub open spec fn decimal(n: int) -> Seq<char> {
    if n < 0 {
        seq!['-'] + digits((-n) as nat)
    } else {
        digits(n as nat)
    }
}

/// The line of a position: the column, a tab and the row.
pub open spec fn position_line(p: Position) -> Seq<char> {
    decimal(p.x as int) + seq!['\t'] + decimal(p.y as int)
}

/// The line of a match: the line of its position, a tab and the score as it
/// is written.
pub open spec fn match_line(p: Position, score: Seq<char>) -> Seq<char> {
    position_line(p) + seq!['\t'] + score
}

/// The summary of a search: the threshold as it is written, and the rows
/// and columns of the haystack and of the needle.
pub open spec fn summary(threshold: Seq<char>, haystack: Extent, needle: Extent) -> Seq<char> {
    "threshold = "@ + threshold + ", host = "@ + decimal(haystack.spec_rows() as int) + "*"@
        + decimal(haystack.spec_cols() as int) + ", target = "@ + decimal(
        needle.spec_rows() as int,
    ) + "*"@ + decimal(needle.spec_cols() as int)
}

/// The lines that a run prints for its matches.
#[derive(Clone, Copy, Debug, PartialEq, Eq, Structural)]
pub enum Listing {
    /// One line for each match, with its position and its score.
    Scored,
    /// One line for each match, with its position.
    Plain,
    /// No line.
    Silent,
}

/// What a run does with its matches.
#[derive(Clone, Copy, Debug, PartialEq, Eq, Structural)]
pub struct Plan {
    /// The lines to print, before anything is drawn.
    pub listing: Listing,
    /// Whether each match is outlined on the haystack.
    pub mark: bool,
    /// Whether the haystack is written afterwards.
    pub write: bool,
}

/// What a run does with `found` matches. `once` asks for the best match
/// alone, `verbose` for the scores, and `output` says that a file for the
/// marked haystack was named.
///
/// A verbose run lists positions with scores; a run that is not verbose
/// lists positions where no file was named, and nothing where one was. With
/// a file named every match is outlined, and the haystack is written unless
/// the best match alone was asked for and there is none.
pub open spec fn planned(once: bool, verbose: bool, output: bool, found: nat) -> Plan {
    Plan {
        listing: if verbose {
            Listing::Scored
        } else if output {
            Listing::Silent
        } else {
            Listing::Plain
        },
        mark: output,
        write: output && (!once || found > 0),
    }
}

/// Decides what a run does with `found` matches: see [`planned`].
pub fn plan(once: bool, verbose: bool, output: bool, found: usize) -> (p: Plan)
    ensures
        p == planned(once, verbose, output, found as nat),
        !verbose && output ==> p.listing == Listing::Silent,
        verbose ==> p.listing == Listing::Scored,
        p.write ==> p.mark,
{
    let listing = if verbose {
        Listing::Scored
    } else if output {
        Listing::Silent
    } else {
        Listing::Plain
    };
    Plan { listing, mark: output, write: output && (!once || found > 0) }
}

/// The lines of the positions of the matches, in their order.
pub fn position_lines(found: &Vec<Match>) -> (lines: Vec<String>)
    ensures
        lines@.len() == found@.len(),
        forall|i: int|
            0 <= i < found@.len() ==> (#[trigger] lines@[i])@ == position_line(found@[i].0),
{
    let mut lines: Vec<String> = Vec::new();
    let mut i: usize = 0;
    while i < found.len()
        invariant
            i <= found@.len(),
            lines@.len() == i,
            forall|k: int| 0 <= k < i ==> (#[trigger] lines@[k])@ == position_line(found@[k].0),
        decreases found@.len() - i,
    {
        let line = found[i].0.line();
        lines.push(line);
        i += 1;
    }
    lines
}

/// The line that sums up a search before it runs. `threshold` is the
/// threshold as it is written.
pub fn summary_line(threshold: &str, haystack: &Extent, needle: &Extent) -> (s: String)
    ensures
        s@ == summary(threshold@, *haystack, *needle),
{
    let mut s = String::from_str("threshold = ");
    s.append(threshold);
    s.append(", host = ");
    push_decimal(&mut s, haystack.rows());
    s.append("*");
    push_decimal(&mut s, haystack.cols());
    s.append(", target = ");
    push_decimal(&mut s, needle.rows());
    s.append("*");
    push_decimal(&mut s, needle.cols());
    assert(s@ =~= summary(threshold@, *haystack, *needle));
    s
}

/// What is reported as one line of text.
pub trait Print {
    /// The text of the line, without the line break.
    spec fn text(&self) -> Seq<char>;

    /// The line that reports `self`, without the line break.
    fn line(&self) -> (s: String)
        ensures
            s@ == self.text(),
    ;
}

impl Print for Position {
    open spec fn text(&self) -> Seq<char> {
        position_line(*self)
    }

    fn line(&self) -> (s: String) {
        let mut s = String::new();
        push_decimal(&mut s, self.x);
        proof {
            reveal_strlit("\t");
        }
        s.append("\t");
        push_decimal(&mut s, self.y);
        assert(s@ =~= position_line(*self));
        s
    }
}

/// The line that reports a match: the column, the row and the score,
/// separated by tabs. `score` is the score as it is written.
pub fn scored_line(position: &Position, score: &str) -> (s: String)
    ensures
        s@ == match_line(*position, score@),
{
    let mut s = position.line();
    proof {
        reveal_strlit("\t");
    }
    s.append("\t");
    s.append(score);
    assert(s@ =~= match_line(*position, score@));
    s
}

/// The text of one decimal digit.
fn digit_text(d: u32) -> (s: &'static str)
    requires
        d < 10,
    ensures
        s@ == seq![digit(d as int)],
{
    proof {
        reveal_strlit("0");
        reveal_strlit("1");
        reveal_strlit("2");
        reveal_strlit("3");
        reveal_strlit("4");
        reveal_strlit("5");
        reveal_strlit("6");
        reveal_strlit("7");
        reveal_strlit("8");
        reveal_strlit("9");
    }
    let s = if d == 0 {
        "0"
    } else if d == 1 {
        "1"
    } else if d == 2 {
        "2"
    } else if d == 3 {
        "3"
    } else if d == 4 {
        "4"
    } else if d == 5 {
        "5"
    } else if d == 6 {
        "6"
    } else if d == 7 {
        "7"
    } else if d == 8 {
        "8"
    } else {
        "9"
    };
    assert(s@ =~= seq![digit(d as int)]);
    s
}

/// Appends the decimal digits of `n`.
fn push_digits(s: &mut String, n: u32)
    ensures
        final(s)@ == old(s)@ + digits(n as nat),
    decreases n,
{
    if n >= 10 {
        push_digits(s, n / 10);
    }
    s.append(digit_text(n % 10));
    assert(s@ =~= old(s)@ + digits(n as nat));
}

/// Appends `n` in decimal.
fn push_decimal(s: &mut String, n: i32)
    ensures
        final(s)@ == old(s)@ + decimal(n as int),
{
    if n < 0 {
        proof {
            reveal_strlit("-");
        }
        s.append("-");
        let magnitude: u32 = if n == i32::MIN {
            0x8000_0000
        } else {
            (-n) as u32
        };
        push_digits(s, magnitude);
        assert(s@ =~= old(s)@ + decimal(n as int));
    } else {
        push_digits(s, n as u32);
    }
}

} // verus!
