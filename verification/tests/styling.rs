use jit::status::get_colored_status;
use jit::presenter::render_tickets_table;
use jit::presenter::IssueRecord;
use jit::presenter::SprintMembership;

#[test]
fn forced_styling_wraps_with_the_documented_sequences() {
    colored::control::set_override(true);
    // the exact prefixes the contracts state: emphasis, then color code
    assert_eq!(
        get_colored_status("In Progress").styled,
        "\u{1b}[1;93mIn Progress\u{1b}[0m"
    );
    assert_eq!(get_colored_status("Done").styled, "\u{1b}[1;92mDone\u{1b}[0m");
    assert_eq!(get_colored_status("Backlog").styled, "\u{1b}[34mBacklog\u{1b}[0m");
    assert_eq!(
        get_colored_status("Frobnicate").styled,
        "\u{1b}[37mFrobnicate\u{1b}[0m"
    );
}

#[test]
fn styling_off_passes_the_label_through() {
    colored::control::set_override(false);
    assert_eq!(jit::status::colored_status_text("In Progress"), "In Progress");
    assert_eq!(get_colored_status("Done").styled, "Done");
}

#[test]
fn detailed_labels_are_emphasized_or_plain() {
    colored::control::set_override(true);
    let t = IssueRecord {
        key: "RW-9".to_string(),
        summary: "S".to_string(),
        status: None,
        sprints: None,
        assignee: None,
        reporter: None,
        priority: None,
        issue_type: None,
        created: None,
        updated: None,
        due_date: None,
        description: None,
    };
    let st = jit::presenter::build_detailed_style(&t);
    assert_eq!(st.label_type, "\u{1b}[1mType:\u{1b}[0m");
    assert_eq!(st.title, "\u{1b}[1mTICKET DETAILS\u{1b}[0m");
    // an absent status is painted as its placeholder, in the plain-white
    // rule
    assert_eq!(st.status, "\u{1b}[37mNot set\u{1b}[0m");
    colored::control::set_override(false);
    let st2 = jit::presenter::build_detailed_style(&t);
    assert_eq!(st2.label_type, "Type:");
    assert_eq!(st2.status, "Not set");
}

#[test]
fn styled_cell_visible_length_is_the_label_length() {
    colored::control::set_override(true);
    let cell = get_colored_status("In Progress");
    assert_eq!(cell.visible, "In Progress".chars().count());
    // with styling forced on, the printed text is longer than what the
    // terminal shows, and still holds the label
    assert!(cell.styled.chars().count() > cell.visible);
    assert!(cell.styled.contains("In Progress"));
}

#[test]
fn plain_cell_shows_every_character() {
    colored::control::set_override(true);
    let cell = jit::table::Cell::plain("RW-1");
    assert_eq!(cell.styled, "RW-1");
    assert_eq!(cell.visible, 4);
}

#[test]
fn styled_status_does_not_push_the_borders() {
    colored::control::set_override(true);
    let t = IssueRecord {
        key: "RW-1".to_string(),
        summary: "Fix login bug".to_string(),
        status: Some("In Progress".to_string()),
        sprints: Some(vec![SprintMembership {
            name: "Sprint 9".to_string(),
            state: "active".to_string(),
        }]),
        assignee: None,
        reporter: None,
        priority: None,
        issue_type: None,
        created: None,
        updated: None,
        due_date: None,
        description: None,
    };
    let out = render_tickets_table(&vec![t]);
    let lines: Vec<&str> = out.lines().collect();
    // banner, blank, top, header, separator, one row, bottom
    assert_eq!(lines.len(), 7);
    let border_width = lines[2].chars().count();
    // the borders and the header line agree
    assert_eq!(lines[3].chars().count(), border_width);
    assert_eq!(lines[4].chars().count(), border_width);
    assert_eq!(lines[6].chars().count(), border_width);
    // the styled row is longer by exactly the invisible styling characters
    let styled = get_colored_status("In Progress").styled;
    let invisible = styled.chars().count() - "In Progress".chars().count();
    assert_eq!(lines[5].chars().count(), border_width + invisible);
}
