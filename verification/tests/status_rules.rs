use jit::status::style_for_status;
use jit::status::StatusStyle;

#[test]
fn progress_rule_matches_case_insensitively() {
    assert_eq!(style_for_status("In Progress"), StatusStyle::BrightYellowBold);
    assert_eq!(style_for_status("IN PROGRESS"), StatusStyle::BrightYellowBold);
}

#[test]
fn uppercase_done_is_lowercased_before_matching() {
    // fails if the lowercase step handed its argument back unchanged
    assert_eq!(style_for_status("DONE"), StatusStyle::BrightGreenBold);
}

#[test]
fn first_match_wins_over_later_rules() {
    // holds a keyword of the progress rule and one of the review rule
    assert_eq!(style_for_status("Testing review"), StatusStyle::BrightYellowBold);
}

#[test]
fn review_rule() {
    assert_eq!(style_for_status("Code Review"), StatusStyle::YellowBold);
}

#[test]
fn done_rule_beats_progress_rule() {
    assert_eq!(style_for_status("Done testing"), StatusStyle::BrightGreenBold);
}

#[test]
fn todo_and_open_rule() {
    assert_eq!(style_for_status("Todo"), StatusStyle::BrightBlue);
    assert_eq!(style_for_status("Reopened"), StatusStyle::BrightBlue);
}

#[test]
fn backlog_and_selected_rules() {
    assert_eq!(style_for_status("Backlog"), StatusStyle::Blue);
    assert_eq!(style_for_status("Selected for Development"), StatusStyle::Cyan);
}

#[test]
fn blocked_and_cancelled_rules() {
    assert_eq!(style_for_status("Blocked"), StatusStyle::BrightRedBold);
    assert_eq!(style_for_status("Impediment"), StatusStyle::BrightRedBold);
    assert_eq!(style_for_status("Cancelled"), StatusStyle::RedBold);
    assert_eq!(style_for_status("Won't Fix"), StatusStyle::RedBold);
    assert_eq!(style_for_status("Wont Do"), StatusStyle::RedBold);
}

#[test]
fn unmatched_label_is_plain() {
    assert_eq!(style_for_status("Frobnicate"), StatusStyle::White);
    // a spaced label does not match the unspaced keyword
    assert_eq!(style_for_status("To Do"), StatusStyle::White);
}
