use fft_column::failure::Failure;
use fft_column::loader::LoadError;

#[test]
fn usage_failure_ends_with_status_one() {
    assert_eq!(Failure::Usage.exit_status(), 1);
}

#[test]
fn other_failures_end_with_the_abort_status() {
    assert_eq!(Failure::Io.exit_status(), 101);
    assert_eq!(Failure::Parse.exit_status(), 101);
    assert_eq!(Failure::Transform.exit_status(), 101);
}

#[test]
fn no_failure_ends_with_status_zero() {
    for failure in [Failure::Usage, Failure::Io, Failure::Parse, Failure::Transform] {
        assert_ne!(failure.exit_status(), 0);
    }
}

#[test]
fn missing_column_is_a_parse_failure() {
    assert_eq!(Failure::of_load(LoadError::MissingColumn), Failure::Parse);
}
