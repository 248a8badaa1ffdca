//! What the HTTP collaborator is handed: the authentication header and the
//! request URLs and body. The transport itself stays outside this crate.

use vstd::prelude::*;
use vstd::string::StringExecFns;
use base64::Engine;
use crate::text::chars_to_string;
use crate::text::dec_digits;
use crate::text::push_chars;
use crate::text::push_dec;

verus! {

/// The base64 form of a text's UTF-8 bytes under the standard padded
/// alphabet.
pub uninterp spec fn base64_std_of(s: Seq<char>) -> Seq<char>;

/// Relies on base64's Engine::encode with the STANDARD engine (the
/// standard alphabet, padded): the result is a function of the input bytes
/// alone.
#[verifier::external_body]
fn base64_encode(s: &str) -> (r: String)
    ensures
        r@ == base64_std_of(s@),
{
    base64::engine::general_purpose::STANDARD.encode(s)
}

/// The Basic authentication header for the credentials: the base64 form of
/// `email:token` after the scheme word.
pub fn basic_auth_header(email: &str, token: &str) -> (r: String)
    ensures
        r@ == "Basic "@ + base64_std_of(email@ + ":"@ + token@),
{
    let mut creds: String = email.to_owned();
    creds.append(":");
    creds.append(token);
    let encoded: String = base64_encode(creds.as_str());
    let mut r: String = String::from_str("Basic ");
    r.append(encoded.as_str());
    r
}

/// The URL an issue is fetched from, asking for exactly the fields the
/// views read.
pub fn issue_fetch_url(base_url: &str, issue_key: &str) -> (r: String)
    ensures
        r@ == base_url@ + "/rest/api/3/issue/"@ + issue_key@
            + "?fields=summary,status,customfield_10020,description,assignee,reporter,priority,issuetype,created,updated,duedate"@,
{
    let mut r: String = base_url.to_owned();
    r.append("/rest/api/3/issue/");
    r.append(issue_key);
    r.append(
        "?fields=summary,status,customfield_10020,description,assignee,reporter,priority,issuetype,created,updated,duedate",
    );
    r
}

/// The URL the sprint listing is searched at.
pub fn search_url(base_url: &str) -> (r: String)
    ensures
        r@ == base_url@ + "/rest/api/3/search"@,
{
    let mut r: String = base_url.to_owned();
    r.append("/rest/api/3/search");
    r
}

/// The JSON body of the sprint listing search: the caller's open-sprint
/// query, bounded by `limit` results. Keys stand in the sorted order the
/// serializer emits.
pub fn search_request_body(limit: u32) -> (r: String)
    ensures
        r@ ==
        "{\"fields\":[\"summary\",\"status\",\"customfield_10020\"],\"jql\":\"assignee = currentUser() AND sprint in openSprints() ORDER BY updated DESC\",\"maxResults\":"@
            + dec_digits(limit as nat) + "}"@,
{
    let mut out: Vec<char> = Vec::new();
    push_chars(
        &mut out,
        "{\"fields\":[\"summary\",\"status\",\"customfield_10020\"],\"jql\":\"assignee = currentUser() AND sprint in openSprints() ORDER BY updated DESC\",\"maxResults\":",
    );
    push_dec(&mut out, limit);
    push_chars(&mut out, "}");
    proof {
        assert(out@ =~=
            "{\"fields\":[\"summary\",\"status\",\"customfield_10020\"],\"jql\":\"assignee = currentUser() AND sprint in openSprints() ORDER BY updated DESC\",\"maxResults\":"@
            + dec_digits(limit as nat) + "}"@);
    }
    chars_to_string(&out)
}

/// The diagnostic line for a failed request, carrying the response status
/// and body.
pub fn fetch_error_message(status: &str, body: &str) -> (r: String)
    ensures
        r@ == "JIRA API request failed with status: "@ + status@ + " - "@ + body@,
{
    let mut r: String = String::from_str("JIRA API request failed with status: ");
    r.append(status);
    r.append(" - ");
    r.append(body);
    r
}

} // verus!
