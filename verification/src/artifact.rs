//! Names and lines of the two artifacts of a run.
//!
//! The spectrum artifact holds a header, then one record for each bin. The
//! inverse artifact holds one record for each sample and no header. A record
//! is two fields with one blank between them. The header is a comment, so
//! both artifacts can be loaded again as input.

use crate::loader::{
    column_of, has_column, is_comment, lemma_column_of_push, lemma_comment_gives_no_sample,
};
use crate::token::{is_word, lemma_tokens_around_space, lemma_tokens_of_word, tokens};
use vstd::prelude::*;
use vstd::string::StringExecFns;

verus! {

/// The header of the spectrum artifact.
pub open spec fn header() -> Seq<char> {
    "# frequency_in_Hz factor?"@
}

/// The line that holds the fields `first` and `second`.
pub open spec fn record(first: Seq<char>, second: Seq<char>) -> Seq<char> {
    first + seq![' '] + second
}

/// The lines that hold `rows`, one record for each row, in order.
pub open spec fn records(rows: Seq<(Seq<char>, Seq<char>)>) -> Seq<Seq<char>> {
    rows.map_values(|row: (Seq<char>, Seq<char>)| record(row.0, row.1))
}

/// Rows that can be told apart again once written: every field is a word, and
/// no first field starts a comment.
pub open spec fn loadable(rows: Seq<(Seq<char>, Seq<char>)>) -> bool {
    forall|i: int|
        0 <= i < rows.len() ==> {
            &&& is_word((#[trigger] rows[i]).0)
            &&& !is_comment(rows[i].0)
            &&& is_word(rows[i].1)
        }
}

/// The first fields of `rows`, in order.
pub open spec fn firsts(rows: Seq<(Seq<char>, Seq<char>)>) -> Seq<Seq<char>> {
    rows.map_values(|row: (Seq<char>, Seq<char>)| row.0)
}

/// The second fields of `rows`, in order.
pub open spec fn seconds(rows: Seq<(Seq<char>, Seq<char>)>) -> Seq<Seq<char>> {
    rows.map_values(|row: (Seq<char>, Seq<char>)| row.1)
}

/// The tokens of a record of two words are those two words.
pub proof fn lemma_record_tokens(first: Seq<char>, second: Seq<char>)
    requires
        is_word(first),
        is_word(second),
    ensures
        tokens(record(first, second)) == seq![first, second],
{
    lemma_tokens_around_space(first, ' ', second);
    lemma_tokens_of_word(first);
    lemma_tokens_of_word(second);
    assert(seq![first] + seq![second] =~= seq![first, second]);
}

/// The records of loadable rows load again: column 0 gives the first fields
/// and column 1 the second fields.
pub proof fn lemma_records_load_back(rows: Seq<(Seq<char>, Seq<char>)>)
    requires
        loadable(rows),
    ensures
        has_column(records(rows), 0),
        has_column(records(rows), 1),
        column_of(records(rows), 0) == firsts(rows),
        column_of(records(rows), 1) == seconds(rows),
    decreases rows.len(),
{
    if rows.len() == 0 {
        assert(column_of(records(rows), 0) =~= firsts(rows)) by {
            reveal(Seq::filter);
        }
        assert(column_of(records(rows), 1) =~= seconds(rows)) by {
            reveal(Seq::filter);
        }
    } else {
        let init = rows.drop_last();
        let row = rows.last();
        let line = record(row.0, row.1);
        assert(loadable(init)) by {
            assert forall|i: int| 0 <= i < init.len() implies is_word((#[trigger] init[i]).0)
                && !is_comment(init[i].0) && is_word(init[i].1) by {
                assert(init[i] == rows[i]);
            }
        }
        lemma_records_load_back(init);
        lemma_record_tokens(row.0, row.1);
        assert(line[0] == row.0[0]);
        assert(!is_comment(line));
        assert(records(rows) =~= records(init).push(line));
        lemma_column_of_push(records(init), line, 0);
        lemma_column_of_push(records(init), line, 1);
        assert(firsts(rows) =~= firsts(init).push(row.0));
        assert(seconds(rows) =~= seconds(init).push(row.1));
        assert forall|i: int| 0 <= i < records(rows).len() implies 1 < tokens(
            #[trigger] records(rows)[i],
        ).len() by {
            if i < init.len() {
                assert(records(rows)[i] == records(init)[i]);
            }
        }
    }
}

/// The spectrum artifact of loadable rows loads again: its header gives no
/// sample, column 0 gives the first fields and column 1 the second fields.
pub proof fn lemma_spectrum_loads_back(rows: Seq<(Seq<char>, Seq<char>)>)
    requires
        loadable(rows),
    ensures
        has_column(seq![header()] + records(rows), 0),
        has_column(seq![header()] + records(rows), 1),
        column_of(seq![header()] + records(rows), 0) == firsts(rows),
        column_of(seq![header()] + records(rows), 1) == seconds(rows),
{
    let lines = seq![header()] + records(rows);
    reveal_strlit("# frequency_in_Hz factor?");
    assert(lines[0] == header());
    assert(lines.remove(0) =~= records(rows));
    lemma_records_load_back(rows);
    lemma_comment_gives_no_sample(lines, 0, 0);
    lemma_comment_gives_no_sample(lines, 0, 1);
}

/// The number of sample intervals at which the sample at `index` is
/// reported: the first sample stands at one interval, not at zero.
pub fn time_steps(index: usize) -> (steps: usize)
    requires
        index < usize::MAX,
    ensures
        steps == index + 1,
{
    index + 1
}

/// The name of the spectrum artifact that belongs to the input `input`.
pub fn spectrum_path(input: &str) -> (path: String)
    ensures
        path@ == input@ + ".spectrum"@,
{
    String::from_str(input).concat(".spectrum")
}

/// The name of the inverse artifact that belongs to the input `input`.
pub fn inverse_path(input: &str) -> (path: String)
    ensures
        path@ == input@ + ".inverse"@,
{
    String::from_str(input).concat(".inverse")
}

/// The header of the spectrum artifact, a comment.
pub fn spectrum_header() -> (line: &'static str)
    ensures
        line@ == header(),
        is_comment(line@),
{
    proof {
        reveal_strlit("# frequency_in_Hz factor?");
    }
    "# frequency_in_Hz factor?"
}

/// The line that holds the fields `first` and `second`.
pub fn record_line(first: &str, second: &str) -> (line: String)
    ensures
        line@ == record(first@, second@),
{
    proof {
        reveal_strlit(" ");
    }
    let line = String::from_str(first).concat(" ").concat(second);
    assert(line@ =~= record(first@, second@));
    line
}

/// One record for each row, in order.
fn record_lines(lines: &mut Vec<String>, rows: &[(String, String)])
    ensures
        final(lines).deep_view() == old(lines).deep_view() + records(rows.deep_view()),
{
    let ghost before = lines.deep_view();
    let ghost all = rows.deep_view();
    let mut i: usize = 0;
    assert(lines.deep_view() =~= before + records(all.take(0)));
    while i < rows.len()
        invariant
            i <= rows.len(),
            all == rows.deep_view(),
            all.len() == rows.len(),
            lines.deep_view() == before + records(all.take(i as int)),
        decreases rows.len() - i,
    {
        let ghost so_far = lines.deep_view();
        let line = record_line(rows[i].0.as_str(), rows[i].1.as_str());
        lines.push(line);
        assert(all.take(i + 1) =~= all.take(i as int).push(all[i as int]));
        assert(lines.deep_view() =~= so_far.push(record(all[i as int].0, all[i as int].1)));
        assert(lines.deep_view() =~= before + records(all.take(i + 1)));
        i = i + 1;
    }
    assert(all.take(i as int) =~= all);
}

/// The lines of the spectrum artifact: the header, then one record for each
/// row, in order.
pub fn spectrum_lines(rows: &[(String, String)]) -> (lines: Vec<String>)
    ensures
        lines.deep_view() == seq![header()] + records(rows.deep_view()),
{
    let mut lines: Vec<String> = Vec::new();
    lines.push(String::from_str(spectrum_header()));
    assert(lines.deep_view() =~= seq![header()]);
    record_lines(&mut lines, rows);
    lines
}

/// The lines of the inverse artifact: one record for each row, in order, and
/// no header.
pub fn inverse_lines(rows: &[(String, String)]) -> (lines: Vec<String>)
    ensures
        lines.deep_view() == records(rows.deep_view()),
{
    let mut lines: Vec<String> = Vec::new();
    assert(lines.deep_view() =~= Seq::<Seq<char>>::empty());
    record_lines(&mut lines, rows);
    assert(lines.deep_view() =~= records(rows.deep_view()));
    lines
}

} // verus!
