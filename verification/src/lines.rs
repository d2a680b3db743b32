//! Line-oriented parsing of command output: each line is skipped, kept as a
//! value, or rejected, and the first rejected line ends the parse.
use vstd::prelude::*;

verus! {

/// What one line contributes to a parse.
pub enum LineOutcome<T> {
    /// The line carries nothing (for example, it is blank).
    Skip,
    /// The line yields a value.
    Keep(T),
    /// The line is malformed; the parse fails with this error.
    Reject(LineError),
}

/// Why a line was rejected.
#[derive(Debug, Clone, Copy, PartialEq, Eq, Structural)]
pub enum LineErrorKind {
    /// The line does not have the expected fields.
    UnexpectedRow,
    /// A timestamp field is not an integer.
    BadTimestamp,
}

/// A rejected line: what was wrong and the offending text.
pub struct LineError {
    pub kind: LineErrorKind,
    pub text: Seq<char>,
}

/// The values of every kept line, in order, or the first rejection.
pub open spec fn fold_lines<T>(lines: Seq<Seq<char>>, f: spec_fn(Seq<char>) -> LineOutcome<T>) -> Result<Seq<T>, LineError>
    decreases lines.len(),
{
    if lines.len() == 0 {
        Ok(Seq::empty())
    } else {
        match f(lines[0]) {
            LineOutcome::Skip => fold_lines(lines.drop_first(), f),
            LineOutcome::Keep(x) => match fold_lines(lines.drop_first(), f) {
                Ok(rest) => Ok(seq![x] + rest),
                Err(e) => Err(e),
            },
            LineOutcome::Reject(e) => Err(e),
        }
    }
}

/// Parsing the rest of the lines after `i`, given the values already kept.
pub open spec fn fold_from<T>(acc: Seq<T>, lines: Seq<Seq<char>>, i: int, f: spec_fn(Seq<char>) -> LineOutcome<T>) -> Result<Seq<T>, LineError> {
    match fold_lines(lines.skip(i), f) {
        Ok(rest) => Ok(acc + rest),
        Err(e) => Err(e),
    }
}

/// One step of a line parse: handling line `i` moves the fold forward.
pub proof fn lemma_fold_step<T>(acc: Seq<T>, lines: Seq<Seq<char>>, i: int, f: spec_fn(Seq<char>) -> LineOutcome<T>)
    requires
        0 <= i < lines.len(),
    ensures
        f(lines[i]) is Skip ==> fold_from(acc, lines, i, f) == fold_from(acc, lines, i + 1, f),
        f(lines[i]) matches LineOutcome::Keep(x) ==> fold_from(acc, lines, i, f) == fold_from(
            acc.push(x),
            lines,
            i + 1,
            f,
        ),
        f(lines[i]) matches LineOutcome::Reject(e) ==> fold_from(acc, lines, i, f) == Err::<Seq<T>, LineError>(e),
{
    let t = lines.skip(i);
    assert(t[0] == lines[i]);
    assert(t.drop_first() =~= lines.skip(i + 1));
    match f(lines[i]) {
        LineOutcome::Keep(x) => {
            match fold_lines(lines.skip(i + 1), f) {
                Ok(rest) => {
                    assert(acc + (seq![x] + rest) =~= acc.push(x) + rest);
                },
                Err(_) => {},
            }
        },
        _ => {},
    }
}

/// Starting and finishing a line parse.
pub proof fn lemma_fold_ends<T>(lines: Seq<Seq<char>>, f: spec_fn(Seq<char>) -> LineOutcome<T>, acc: Seq<T>)
    ensures
        fold_from(Seq::<T>::empty(), lines, 0, f) == fold_lines(lines, f),
        fold_from(acc, lines, lines.len() as int, f) == Ok::<Seq<T>, LineError>(acc),
{
    assert(lines.skip(0) =~= lines);
    assert(lines.skip(lines.len() as int) =~= Seq::<Seq<char>>::empty());
    match fold_lines(lines, f) {
        Ok(r) => {
            assert(Seq::<T>::empty() + r =~= r);
        },
        Err(_) => {},
    }
    assert(acc + Seq::<T>::empty() =~= acc);
}

} // verus!
