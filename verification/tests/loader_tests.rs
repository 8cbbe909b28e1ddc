use fft_column::loader::{is_comment_line, load_column, LoadError};

fn lines_of(text: &[&str]) -> Vec<String> {
    text.iter().map(|line| line.to_string()).collect()
}

#[test]
fn comment_is_decided_by_the_first_character() {
    assert!(is_comment_line("#"));
    assert!(is_comment_line("# 1 2 3"));
    assert!(is_comment_line("#1"));
    assert!(!is_comment_line(""));
    assert!(!is_comment_line(" # 1"));
    assert!(!is_comment_line("1 # 2"));
    assert!(!is_comment_line("\u{FF03} 1"));
}

#[test]
fn load_takes_the_chosen_column_in_line_order() {
    let lines = lines_of(&["3 30", "1 10", "2 20"]);
    assert_eq!(load_column(&lines, 0), Ok(lines_of(&["3", "1", "2"])));
    assert_eq!(load_column(&lines, 1), Ok(lines_of(&["30", "10", "20"])));
}

#[test]
fn load_skips_comments_wherever_they_stand() {
    let lines = lines_of(&["# t x", "0 1.5", "# 9 9 9", "1 2.5", "#"]);
    assert_eq!(load_column(&lines, 1), Ok(lines_of(&["1.5", "2.5"])));
}

#[test]
fn comment_with_numbers_gives_no_sample() {
    let with = lines_of(&["1 2", "#3 4", "5 6"]);
    let without = lines_of(&["1 2", "5 6"]);
    assert_eq!(load_column(&with, 0), load_column(&without, 0));
    assert_eq!(load_column(&with, 1), load_column(&without, 1));
    assert_eq!(load_column(&with, 2), load_column(&without, 2));
    assert_eq!(load_column(&with, 0), Ok(lines_of(&["1", "5"])));
}

#[test]
fn short_comment_does_not_fail_the_load() {
    let lines = lines_of(&["#", "1 2 3", "# x"]);
    assert_eq!(load_column(&lines, 2), Ok(lines_of(&["3"])));
}

#[test]
fn short_line_fails_the_load() {
    let lines = lines_of(&["1 2", "3", "4 5"]);
    assert_eq!(load_column(&lines, 1), Err(LoadError::MissingColumn));
    assert_eq!(load_column(&lines, 0), Ok(lines_of(&["1", "3", "4"])));
}

#[test]
fn short_line_fails_the_load_wherever_it_stands() {
    for at in 0..4 {
        let mut lines = lines_of(&["1 2", "3 4", "5 6"]);
        lines.insert(at, "7".to_string());
        assert_eq!(load_column(&lines, 1), Err(LoadError::MissingColumn));
    }
}

#[test]
fn blank_line_fails_the_load() {
    assert_eq!(load_column(&lines_of(&["1", "", "2"]), 0), Err(LoadError::MissingColumn));
    assert_eq!(load_column(&lines_of(&["1", "   ", "2"]), 0), Err(LoadError::MissingColumn));
    assert_eq!(load_column(&lines_of(&["1", "2", ""]), 0), Err(LoadError::MissingColumn));
}

#[test]
fn hash_after_a_blank_is_data() {
    let lines = lines_of(&[" # 1"]);
    assert_eq!(load_column(&lines, 0), Ok(lines_of(&["#"])));
    assert_eq!(load_column(&lines, 1), Ok(lines_of(&["1"])));
}

#[test]
fn no_lines_give_no_samples() {
    assert_eq!(load_column(&[], 0), Ok(Vec::new()));
    assert_eq!(load_column(&[], 7), Ok(Vec::new()));
    assert_eq!(load_column(&lines_of(&["# only", "# comments"]), 3), Ok(Vec::new()));
}

#[test]
fn load_hands_tokens_out_unread() {
    let lines = lines_of(&["x 1e400", "y not-a-number"]);
    assert_eq!(load_column(&lines, 1), Ok(lines_of(&["1e400", "not-a-number"])));
}

#[test]
fn three_comments_then_five_samples() {
    let lines = lines_of(&["# a", "# b", "# c", "0", "1", "2", "3", "4"]);
    assert_eq!(load_column(&lines, 0), Ok(lines_of(&["0", "1", "2", "3", "4"])));
}

#[test]
fn one_token_where_second_column_is_asked() {
    let lines = lines_of(&["1.0 2.0", "3.0", "5.0 6.0"]);
    assert_eq!(load_column(&lines, 1), Err(LoadError::MissingColumn));
    assert_eq!(load_column(&lines_of(&["3.0"]), 1), Err(LoadError::MissingColumn));
}
