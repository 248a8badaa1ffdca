use base64::Engine;
use jit::request::basic_auth_header;
use jit::request::fetch_error_message;
use jit::request::issue_fetch_url;
use jit::request::search_request_body;
use jit::request::search_url;

#[test]
fn auth_header_encodes_the_credentials() {
    // fails if the encoding step handed its argument back unchanged
    assert_eq!(
        basic_auth_header("user@example.com", "token"),
        "Basic dXNlckBleGFtcGxlLmNvbTp0b2tlbg=="
    );
}

#[test]
fn auth_header_agrees_with_the_engine() {
    let expected = format!(
        "Basic {}",
        base64::engine::general_purpose::STANDARD.encode("me@x.io:s3cret")
    );
    assert_eq!(basic_auth_header("me@x.io", "s3cret"), expected);
}

#[test]
fn issue_url_names_the_fields_the_views_read() {
    assert_eq!(
        issue_fetch_url("https://x.atlassian.net", "RW-1931"),
        "https://x.atlassian.net/rest/api/3/issue/RW-1931?fields=summary,status,customfield_10020,description,assignee,reporter,priority,issuetype,created,updated,duedate"
    );
}

#[test]
fn search_url_is_under_the_base() {
    assert_eq!(
        search_url("https://x.atlassian.net"),
        "https://x.atlassian.net/rest/api/3/search"
    );
}

#[test]
fn search_body_holds_the_query_and_the_limit() {
    let body = search_request_body(10);
    assert_eq!(
        body,
        "{\"fields\":[\"summary\",\"status\",\"customfield_10020\"],\"jql\":\"assignee = currentUser() AND sprint in openSprints() ORDER BY updated DESC\",\"maxResults\":10}"
    );
    // the body parses as JSON with exactly the three keys
    let v: serde_json::Value = serde_json::from_str(&body).unwrap();
    assert_eq!(v["maxResults"], 10);
    assert_eq!(v["fields"].as_array().unwrap().len(), 3);
    assert!(v["jql"].as_str().unwrap().contains("openSprints()"));
}

#[test]
fn search_body_carries_other_limits() {
    let body = search_request_body(205);
    assert!(body.ends_with("\"maxResults\":205}"));
}

#[test]
fn fetch_error_carries_status_and_body() {
    assert_eq!(
        fetch_error_message("404 Not Found", "no issue"),
        "JIRA API request failed with status: 404 Not Found - no issue"
    );
}
