//! The arguments of a run and the message for a run that cannot start.
//!
//! A run takes three arguments after the program's name: the sample
//! interval, the column, counted from zero, and the name of the input.

use crate::failure::Failure;
use vstd::prelude::*;
use vstd::string::StringExecFns;

verus! {

/// The lines of the usage message.
pub open spec fn usage() -> Seq<Seq<char>> {
    seq![
        "USAGE:"@,
        "./fft sampling_period colum_of_data input_file_name"@,
        "Note: Column count starts at zero"@,
        "sampling_period is the time interval between two successive data points"@,
    ]
}

/// The lines of the usage message, in the order in which they are shown.
pub fn usage_lines() -> (lines: Vec<String>)
    ensures
        lines.deep_view() == usage(),
{
    let mut lines: Vec<String> = Vec::new();
    lines.push(String::from_str("USAGE:"));
    lines.push(String::from_str("./fft sampling_period colum_of_data input_file_name"));
    lines.push(String::from_str("Note: Column count starts at zero"));
    lines.push(
        String::from_str("sampling_period is the time interval between two successive data points"),
    );
    assert(lines.deep_view() =~= usage());
    lines
}

/// Whether a run can start on `given` arguments after the program's name.
pub open spec fn can_start(given: nat, interval_reads: bool, column_reads: bool) -> bool {
    given >= 3 && interval_reads && column_reads
}

/// Decides whether a run can start: on at least three arguments after the
/// program's name, of which the first reads as an interval and the second as
/// a column. Anything less is a usage failure.
pub fn check_arguments(given: usize, interval_reads: bool, column_reads: bool) -> (result: Result<
    (),
    Failure,
>)
    ensures
        result is Ok <==> can_start(given as nat, interval_reads, column_reads),
        result matches Err(failure) ==> failure == Failure::Usage,
{
    if given >= 3 && interval_reads && column_reads {
        Ok(())
    } else {
        Err(Failure::Usage)
    }
}

} // verus!
