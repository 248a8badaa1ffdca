use jit::resolver::extract_ticket_id;
use jit::resolver::ResolutionError;

#[test]
fn bare_key_is_returned_unchanged() {
    assert_eq!(extract_ticket_id("RW-1931").unwrap(), "RW-1931");
    assert_eq!(extract_ticket_id("ABC-1").unwrap(), "ABC-1");
    assert_eq!(extract_ticket_id("X-900000").unwrap(), "X-900000");
}

#[test]
fn non_url_input_is_passed_through() {
    // no key-shape validation happens at this stage
    assert_eq!(extract_ticket_id("hello world").unwrap(), "hello world");
    assert_eq!(extract_ticket_id("").unwrap(), "");
}

#[test]
fn url_with_key_resolves() {
    assert_eq!(
        extract_ticket_id("https://x.atlassian.net/browse/RW-1931").unwrap(),
        "RW-1931"
    );
}

#[test]
fn url_with_trailing_segment_resolves() {
    assert_eq!(
        extract_ticket_id("https://x.atlassian.net/browse/RW-1931/comments").unwrap(),
        "RW-1931"
    );
}

#[test]
fn url_without_key_fails_with_original_input() {
    let input = "https://x.atlassian.net/browse/";
    let err = extract_ticket_id(input).unwrap_err();
    let ResolutionError::NoKeyInUrl(orig) = err;
    assert_eq!(orig, input);
}

#[test]
fn error_message_carries_the_input() {
    let err = extract_ticket_id("https://x.atlassian.net/nothing").unwrap_err();
    assert_eq!(
        err.message(),
        "Could not extract ticket ID from URL: https://x.atlassian.net/nothing"
    );
}

#[test]
fn first_match_wins_in_url() {
    assert_eq!(
        extract_ticket_id("https://a/browse/AB-1/browse/CD-2").unwrap(),
        "AB-1"
    );
}

#[test]
fn http_scheme_is_recognized() {
    assert_eq!(extract_ticket_id("http://a/browse/Q-7").unwrap(), "Q-7");
}

#[test]
fn key_boundary_must_be_slash_or_end() {
    // a key running into a longer token is no match
    assert!(extract_ticket_id("https://a/browse/AB-12x").is_err());
    assert!(extract_ticket_id("https://a/browse/AB-1?x=2").is_err());
}

#[test]
fn key_needs_uppercase_letters_and_digits() {
    assert!(extract_ticket_id("https://a/browse/ab-1").is_err());
    assert!(extract_ticket_id("https://a/browse/AB-").is_err());
    assert!(extract_ticket_id("https://a/browse/-5").is_err());
}

#[test]
fn later_valid_segment_is_found() {
    assert_eq!(
        extract_ticket_id("https://a/browse/ab-1/browse/CD-2").unwrap(),
        "CD-2"
    );
}
