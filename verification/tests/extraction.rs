use jit::document::extract_plain_text_from_description;
use jit::document::RichTextNode;

fn node(kind: Option<&str>, text: Option<&str>, children: Vec<RichTextNode>) -> RichTextNode {
    RichTextNode {
        kind: kind.map(|k| k.to_string()),
        text: text.map(|t| t.to_string()),
        children,
    }
}

#[test]
fn absent_document_extracts_to_nothing() {
    assert_eq!(extract_plain_text_from_description(None), "");
}

#[test]
fn childless_document_extracts_to_nothing() {
    let doc = node(None, None, vec![]);
    assert_eq!(extract_plain_text_from_description(Some(&doc)), "");
}

#[test]
fn paragraph_with_text_gets_two_newlines() {
    // the paragraph emits a newline after its child, and the top level one
    // more after the paragraph
    let doc = node(
        None,
        None,
        vec![node(
            Some("paragraph"),
            None,
            vec![node(None, Some("Hello"), vec![])],
        )],
    );
    assert_eq!(extract_plain_text_from_description(Some(&doc)), "Hello\n\n");
}

#[test]
fn childless_block_node_emits_no_inner_newline() {
    // the block boundary is keyed on the parent's kind as each child
    // finishes, so a childless paragraph emits none of its own: the one
    // newline comes from the top level
    let doc = node(None, None, vec![node(Some("paragraph"), None, vec![])]);
    assert_eq!(extract_plain_text_from_description(Some(&doc)), "\n");
}

#[test]
fn block_node_with_empty_child_emits_its_newline() {
    // the same paragraph with one (empty) child does emit its boundary:
    // the spacing is asymmetric by design
    let doc = node(
        None,
        None,
        vec![node(Some("paragraph"), None, vec![node(None, None, vec![])])],
    );
    assert_eq!(extract_plain_text_from_description(Some(&doc)), "\n\n");
}

#[test]
fn two_paragraphs_in_document_order() {
    let doc = node(
        None,
        None,
        vec![
            node(Some("paragraph"), None, vec![node(None, Some("One"), vec![])]),
            node(Some("paragraph"), None, vec![node(None, Some("Two"), vec![])]),
        ],
    );
    assert_eq!(
        extract_plain_text_from_description(Some(&doc)),
        "One\n\nTwo\n\n"
    );
}

#[test]
fn list_items_nest() {
    let doc = node(
        None,
        None,
        vec![node(
            Some("bulletList"),
            None,
            vec![node(
                Some("listItem"),
                None,
                vec![node(
                    Some("paragraph"),
                    None,
                    vec![node(None, Some("A"), vec![])],
                )],
            )],
        )],
    );
    // paragraph adds one newline, listItem one more, the top level one more
    assert_eq!(extract_plain_text_from_description(Some(&doc)), "A\n\n\n");
}

#[test]
fn node_text_comes_before_children() {
    let doc = node(
        None,
        None,
        vec![node(
            Some("paragraph"),
            Some("Lead"),
            vec![node(None, Some("tail"), vec![])],
        )],
    );
    assert_eq!(
        extract_plain_text_from_description(Some(&doc)),
        "Leadtail\n\n"
    );
}
