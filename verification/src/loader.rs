//! Loading one column of a commented, whitespace-delimited text.
//!
//! A line whose first character is `#` is a comment. Every other line gives
//! one sample: its token at the chosen column. The samples are handed out as
//! text, in line order.

use crate::token::{nth_token, tokens};
use vstd::prelude::*;
use vstd::std_specs::iter::IteratorSpec;

verus! {

/// Why a column could not be loaded.
#[derive(Debug, Clone, Copy, PartialEq, Eq)]
pub enum LoadError {
    /// A line that is no comment has too few tokens to hold the column.
    MissingColumn,
}

/// A comment is a line whose first character is `#`.
pub open spec fn is_comment(line: Seq<char>) -> bool {
    line.len() > 0 && line[0] == '#'
}

/// The lines that carry a sample: those that are no comments, in order.
pub open spec fn data_lines(lines: Seq<Seq<char>>) -> Seq<Seq<char>> {
    lines.filter(|line: Seq<char>| !is_comment(line))
}

/// Every line that carries a sample has a token at `column`.
pub open spec fn has_column(lines: Seq<Seq<char>>, column: nat) -> bool {
    forall|i: int|
        0 <= i < lines.len() && !is_comment(lines[i]) ==> column < tokens(#[trigger] lines[i]).len()
}

/// The token at `column` of each line that carries a sample, in line order.
pub open spec fn column_of(lines: Seq<Seq<char>>, column: nat) -> Seq<Seq<char>> {
    data_lines(lines).map_values(|line: Seq<char>| tokens(line)[column as int])
}

/// Tells whether `line` is a comment.
pub fn is_comment_line(line: &str) -> (b: bool)
    ensures
        b == is_comment(line@),
{
    let mut chars = line.chars();
    match chars.next() {
        Some(c) => c == '#',
        None => false,
    }
}

/// The data lines of a text grown by one line.
proof fn lemma_data_lines_push(lines: Seq<Seq<char>>, line: Seq<char>)
    ensures
        data_lines(lines.push(line)) == if is_comment(line) {
            data_lines(lines)
        } else {
            data_lines(lines).push(line)
        },
{
    reveal(Seq::filter);
    assert(lines.push(line).drop_last() =~= lines);
}

/// The column of a text grown by one line.
pub proof fn lemma_column_of_push(lines: Seq<Seq<char>>, line: Seq<char>, column: nat)
    ensures
        column_of(lines.push(line), column) == if is_comment(line) {
            column_of(lines, column)
        } else {
            column_of(lines, column).push(tokens(line)[column as int])
        },
{
    lemma_data_lines_push(lines, line);
    if !is_comment(line) {
        assert(column_of(lines.push(line), column) =~= column_of(lines, column).push(
            tokens(line)[column as int],
        ));
    }
}

/// A line that carries a sample and has no token at `column` makes the load
/// fail, whatever the other lines hold.
pub proof fn lemma_short_line_fails(lines: Seq<Seq<char>>, at: int, column: nat)
    requires
        0 <= at < lines.len(),
        !is_comment(lines[at]),
        tokens(lines[at]).len() < column + 1,
    ensures
        !has_column(lines, column),
{
}

/// A comment gives no sample, whatever it holds: with or without it, the
/// same texts load, and they give the same column.
pub proof fn lemma_comment_gives_no_sample(lines: Seq<Seq<char>>, at: int, column: nat)
    requires
        0 <= at < lines.len(),
        is_comment(lines[at]),
    ensures
        has_column(lines.remove(at), column) == has_column(lines, column),
        column_of(lines.remove(at), column) == column_of(lines, column),
{
    let rest = lines.remove(at);
    let keep = |line: Seq<char>| !is_comment(line);
    let head = lines.take(at);
    let tail = lines.skip(at + 1);
    assert(lines =~= head + seq![lines[at]] + tail);
    assert(rest =~= head + tail);
    Seq::filter_distributes_over_add(head + seq![lines[at]], tail, keep);
    Seq::filter_distributes_over_add(head, seq![lines[at]], keep);
    Seq::filter_distributes_over_add(head, tail, keep);
    assert(seq![lines[at]].filter(keep) =~= Seq::<Seq<char>>::empty()) by {
        let none = Seq::<Seq<char>>::empty();
        assert(seq![lines[at]] =~= none.push(lines[at]));
        lemma_data_lines_push(none, lines[at]);
        reveal(Seq::filter);
    }
    assert(data_lines(rest) =~= data_lines(lines));
    if has_column(lines, column) {
        assert forall|i: int| 0 <= i < rest.len() && !is_comment(rest[i]) implies column < tokens(
            #[trigger] rest[i],
        ).len() by {
            if i < at {
                assert(rest[i] == lines[i]);
            } else {
                assert(rest[i] == lines[i + 1]);
            }
        }
    }
    if has_column(rest, column) {
        assert forall|i: int| 0 <= i < lines.len() && !is_comment(lines[i]) implies column
            < tokens(#[trigger] lines[i]).len() by {
            if i < at {
                assert(lines[i] == rest[i]);
            } else {
                assert(lines[i] == rest[i - 1]);
            }
        }
    }
}

/// Loads the column at position `column`, counted from zero, from `lines`.
///
/// Comments give nothing. Every other line gives its token at `column`; where
/// one of them has no such token, nothing is loaded.
pub fn load_column(lines: &[String], column: usize) -> (result: Result<Vec<String>, LoadError>)
    ensures
        result is Ok <==> has_column(lines.deep_view(), column as nat),
        result matches Ok(samples) ==> samples.deep_view() == column_of(
            lines.deep_view(),
            column as nat,
        ),
        result matches Err(e) ==> e == LoadError::MissingColumn,
{
    let ghost text = lines.deep_view();
    let mut samples: Vec<String> = Vec::new();
    let mut i: usize = 0;
    assert(text.take(0) =~= Seq::<Seq<char>>::empty());
    assert(samples.deep_view() =~= column_of(text.take(0), column as nat)) by {
        reveal(Seq::filter);
    }
    while i < lines.len()
        invariant
            i <= lines.len(),
            text == lines.deep_view(),
            text.len() == lines.len(),
            has_column(text.take(i as int), column as nat),
            samples.deep_view() == column_of(text.take(i as int), column as nat),
        decreases lines.len() - i,
    {
        let line = lines[i].as_str();
        assert(line@ == text[i as int]);
        proof {
            assert(text.take(i + 1) =~= text.take(i as int).push(text[i as int]));
            lemma_column_of_push(text.take(i as int), text[i as int], column as nat);
        }
        if !is_comment_line(line) {
            match nth_token(line, column) {
                Some(token) => {
                    let ghost before = samples.deep_view();
                    samples.push(token.to_owned());
                    assert(samples.deep_view() =~= before.push(token@));
                },
                None => {
                    assert(!has_column(text, column as nat));
                    return Err(LoadError::MissingColumn);
                },
            }
        }
        i = i + 1;
    }
    assert(text.take(i as int) =~= text);
    Ok(samples)
}

} // verus!
