use jit::presenter::format_date;
use jit::presenter::render_brief;
use jit::presenter::render_detailed;
use jit::presenter::render_json_line;
use jit::presenter::render_text_line;
use jit::presenter::render_tickets_table;
use jit::presenter::sprint_banner_name;
use jit::presenter::active_sprint_name;
use jit::presenter::DescriptionValue;
use jit::presenter::IssueRecord;
use jit::presenter::SprintMembership;
use jit::document::RichTextNode;
use jit::table::truncate_with_ellipsis;

fn membership(name: &str, state: &str) -> SprintMembership {
    SprintMembership {
        name: name.to_string(),
        state: state.to_string(),
    }
}

fn issue(key: &str, summary: &str, status: Option<&str>) -> IssueRecord {
    IssueRecord {
        key: key.to_string(),
        summary: summary.to_string(),
        status: status.map(|s| s.to_string()),
        sprints: None,
        assignee: None,
        reporter: None,
        priority: None,
        issue_type: None,
        created: None,
        updated: None,
        due_date: None,
        description: None,
    }
}

#[test]
fn truncation_of_seventy_ascii_characters() {
    let long = "a".repeat(70);
    let short = truncate_with_ellipsis(&long, 58);
    assert_eq!(short.chars().count(), 58);
    assert!(short.ends_with("..."));
    assert_eq!(short, format!("{}...", "a".repeat(55)));
}

#[test]
fn truncation_keeps_text_at_the_limit() {
    let exact = "b".repeat(58);
    assert_eq!(truncate_with_ellipsis(&exact, 58), exact);
    let over = "b".repeat(59);
    assert_eq!(truncate_with_ellipsis(&over, 58), format!("{}...", "b".repeat(55)));
}

#[test]
fn truncation_counts_characters_not_bytes() {
    let wide = "é".repeat(70);
    let short = truncate_with_ellipsis(&wide, 58);
    assert_eq!(short.chars().count(), 58);
    assert_eq!(short, format!("{}...", "é".repeat(55)));
}

#[test]
fn date_is_cut_at_the_time_separator() {
    assert_eq!(format_date("2023-09-15T14:53:37.123+0000"), "2023-09-15");
    assert_eq!(format_date("2023-09-15"), "2023-09-15");
    assert_eq!(format_date(""), "Not set");
    assert_eq!(format_date("Unknown"), "Unknown");
}

#[test]
fn sprint_banner_prefers_the_active_membership() {
    let sprints = Some(vec![membership("S1", "closed"), membership("S2", "active")]);
    assert_eq!(sprint_banner_name(&sprints), "S2");
}

#[test]
fn sprint_banner_falls_back_to_the_first_membership() {
    let sprints = Some(vec![membership("S1", "closed")]);
    assert_eq!(sprint_banner_name(&sprints), "S1");
}

#[test]
fn sprint_banner_placeholder_without_memberships() {
    assert_eq!(sprint_banner_name(&Some(vec![])), "Unknown Sprint");
    assert_eq!(sprint_banner_name(&None), "Unknown Sprint");
}

#[test]
fn detailed_sprint_needs_an_active_membership() {
    let sprints = Some(vec![membership("S1", "closed")]);
    assert_eq!(active_sprint_name(&sprints), "Not in sprint");
    let sprints2 = Some(vec![membership("S1", "closed"), membership("S2", "active")]);
    assert_eq!(active_sprint_name(&sprints2), "S2");
}

#[test]
fn brief_view() {
    assert_eq!(
        render_brief("RW-1", "Fix login bug"),
        "Ticket:   RW-1\nSummary:  Fix login bug\n"
    );
}

#[test]
fn text_view() {
    assert_eq!(render_text_line("RW-1", "Fix login bug"), "RW-1: Fix login bug\n");
}

#[test]
fn json_view_has_exactly_two_fields() {
    assert_eq!(
        render_json_line("RW-1", "Fix login bug"),
        "{\"ticket\":\"RW-1\",\"summary\":\"Fix login bug\"}\n"
    );
}

#[test]
fn json_view_escapes_quotes_backslashes_and_controls() {
    assert_eq!(
        render_json_line("RW-1", "He said \"hi\\\"\n\t"),
        "{\"ticket\":\"RW-1\",\"summary\":\"He said \\\"hi\\\\\\\"\\n\\t\"}\n"
    );
    assert_eq!(
        render_json_line("K-1", "a\u{1}b"),
        "{\"ticket\":\"K-1\",\"summary\":\"a\\u0001b\"}\n"
    );
}

#[test]
fn empty_ticket_list_is_a_message_not_a_table() {
    colored::control::set_override(false);
    let tickets: Vec<IssueRecord> = vec![];
    assert_eq!(
        render_tickets_table(&tickets),
        "No tickets found in the current sprint.\n"
    );
}

#[test]
fn tickets_table_layout_with_plain_cells() {
    colored::control::set_override(false);
    let mut t1 = issue("RW-1", "Fix login bug", Some("In Progress"));
    t1.sprints = Some(vec![membership("Sprint 9", "active")]);
    let t2 = issue("RW-22", "Update docs", None);
    let out = render_tickets_table(&vec![t1, t2]);

    // column widths: key max(3,4,5)+2=7 floored to 20; summary
    // max(7,13,11)+2=15; status max(6,11,7)+2=13
    let top = format!("┌{}┬{}┬{}┐\n", "─".repeat(20), "─".repeat(15), "─".repeat(13));
    let sep = format!("├{}┼{}┼{}┤\n", "─".repeat(20), "─".repeat(15), "─".repeat(13));
    let bot = format!("└{}┴{}┴{}┘\n", "─".repeat(20), "─".repeat(15), "─".repeat(13));
    let expected = format!(
        "Current Sprint: Sprint 9\n\n{}│ {:<19}│ {:<14}│ {:<12}│\n{}│ {:<19}│ {:<14}│ {:<12}│\n{}│ {:<19}│ {:<14}│ {:<12}│\n{}",
        top, "Key", "Summary", "Status", sep, "RW-1", "Fix login bug", "In Progress", sep,
        "RW-22", "Update docs", "Unknown", bot,
    );
    assert_eq!(out, expected);
}

#[test]
fn tickets_table_lines_share_one_width() {
    colored::control::set_override(false);
    let mut t1 = issue("RW-1", &"x".repeat(70), Some("Review"));
    t1.sprints = Some(vec![membership("Sprint 9", "active")]);
    let t2 = issue("LONGKEY-12345", "short", Some("Done"));
    let out = render_tickets_table(&vec![t1, t2]);
    let lines: Vec<&str> = out.lines().collect();
    // banner, blank, then the seven table lines
    assert_eq!(lines.len(), 9);
    let width = lines[2].chars().count();
    for line in &lines[2..] {
        assert_eq!(line.chars().count(), width);
    }
    // the truncated summary is present in full
    assert!(out.contains(&format!("{}...", "x".repeat(55))));
}

#[test]
fn detailed_view_with_all_fields() {
    colored::control::set_override(false);
    let mut t = issue("RW-1", "Fix login bug", Some("In Progress"));
    t.sprints = Some(vec![membership("Sprint 9", "active")]);
    t.assignee = Some("Ada".to_string());
    t.reporter = Some("Grace".to_string());
    t.priority = Some("High".to_string());
    t.issue_type = Some("Task".to_string());
    t.created = Some("2023-09-15T10:00:00.000+0000".to_string());
    t.updated = Some("2023-09-16T11:00:00.000+0000".to_string());
    t.due_date = Some("2023-09-30".to_string());
    t.description = Some(DescriptionValue::Doc(
        RichTextNode {
            kind: Some("doc".to_string()),
            text: None,
            children: vec![RichTextNode {
                kind: Some("paragraph".to_string()),
                text: None,
                children: vec![RichTextNode {
                    kind: None,
                    text: Some("Hello".to_string()),
                    children: vec![],
                }],
            }],
        },
        "{}".to_string(),
    ));
    let out = render_detailed(&t);
    let expected = format!(
        "TICKET DETAILS\n\nRW-1: Fix login bug\n\n\
         {:<12} {:<18} {:<12} {:<18}\n\
         {:<12} {:<18} {:<12} {:<18}\n\
         {:<12} {:<18} {:<12} {:<18}\n\
         {:<12} {:<18} {:<12} {:<18}\n\
         {:<12} {:<18}\n\
         \nDESCRIPTION\n\nHello\n\n\n",
        "Type:", "Task", "Priority:", "High",
        "Status:", "In Progress", "Sprint:", "Sprint 9",
        "Assignee:", "Ada", "Reporter:", "Grace",
        "Created:", "2023-09-15", "Updated:", "2023-09-16",
        "Due Date:", "2023-09-30",
    );
    assert_eq!(out, expected);
}

#[test]
fn detailed_view_placeholders_and_fallbacks() {
    colored::control::set_override(false);
    let t = issue("RW-2", "Bare", None);
    let out = render_detailed(&t);
    assert!(out.contains("Type:        Not set"));
    assert!(out.contains("Priority:    Not set"));
    assert!(out.contains("Status:      Not set"));
    assert!(out.contains("Sprint:      Not in sprint"));
    assert!(out.contains("Assignee:    Unassigned"));
    assert!(out.contains("Reporter:    Unknown"));
    assert!(out.contains("Created:     Unknown"));
    assert!(out.contains("Due Date:    Not set"));
    assert!(out.ends_with("No description provided.\n"));
}

#[test]
fn detailed_view_falls_back_to_the_raw_document() {
    colored::control::set_override(false);
    let mut t = issue("RW-3", "Raw", None);
    t.description = Some(DescriptionValue::Doc(
        RichTextNode { kind: None, text: None, children: vec![] },
        "{\n  \"other\": true\n}".to_string(),
    ));
    let out = render_detailed(&t);
    assert!(out.ends_with("DESCRIPTION\n\n{\n  \"other\": true\n}\n"));
}

#[test]
fn detailed_view_null_description_is_a_placeholder() {
    colored::control::set_override(false);
    let mut t = issue("RW-4", "Null", None);
    t.description = Some(DescriptionValue::Null);
    let out = render_detailed(&t);
    assert!(out.ends_with("No description provided.\n"));
}
