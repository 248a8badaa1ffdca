//! The output modes over a fetched issue record: brief, JSON, single-line
//! text, a detailed field grid, and the sprint table.

use vstd::prelude::*;
use vstd::string::StrSliceExecFns;
use vstd::string::StringExecFns;
use crate::document::RichTextNode;
use crate::document::extract_plain_text_from_description;
use crate::document::lin_top;
use crate::status::get_colored_status;
use crate::status::colored_status_text;
use crate::status::lower_of;
use crate::status::no_reset;
use crate::status::paint_bold;
use crate::status::painted_bold;
use crate::status::painted_in;
use crate::status::status_style;
use crate::table::Cell;
use crate::table::render_table;
use crate::table::row_views;
use crate::table::spec_truncate;
use crate::table::table_text;
use crate::table::truncate_with_ellipsis;
use crate::table::widths_of;
use crate::table::repeat_ch;
use crate::text::chars_of;
use crate::text::chars_eq;
use crate::text::chars_to_string;
use crate::text::digit_ch;
use crate::text::push_chars;

verus! {

/// One sprint membership of an issue: the sprint's name and its state.
pub struct SprintMembership {
    pub name: String,
    pub state: String,
}

/// The description carried by an issue: an explicit null, or a structured
/// document together with its raw serialized form, which the detailed view
/// falls back to when extraction yields nothing.
pub enum DescriptionValue {
    Null,
    Doc(RichTextNode, String),
}

/// One fetched issue, reduced to the plain values the views read.
pub struct IssueRecord {
    pub key: String,
    pub summary: String,
    pub status: Option<String>,
    pub sprints: Option<Vec<SprintMembership>>,
    pub assignee: Option<String>,
    pub reporter: Option<String>,
    pub priority: Option<String>,
    pub issue_type: Option<String>,
    pub created: Option<String>,
    pub updated: Option<String>,
    pub due_date: Option<String>,
    pub description: Option<DescriptionValue>,
}

/// An optional field's text, or the given placeholder.
pub open spec fn opt_or(o: Option<String>, d: Seq<char>) -> Seq<char> {
    match o {
        Some(s) => s@,
        None => d,
    }
}

/// An optional field's text, or the given placeholder.
pub fn opt_str<'a>(o: &'a Option<String>, d: &'a str) -> (r: &'a str)
    ensures
        r@ == opt_or(*o, d@),
{
    match o {
        Some(s) => s.as_str(),
        None => d,
    }
}

/// The text before the first 'T' of a date-time string (all of it when no
/// 'T' occurs).
pub open spec fn date_prefix(s: Seq<char>) -> Seq<char>
    decreases s,
{
    if s.len() == 0 {
        Seq::empty()
    } else if s[0] == 'T' {
        Seq::empty()
    } else {
        seq![s[0]] + date_prefix(s.drop_first())
    }
}

/// What a date field shows: a placeholder for an empty value, else the
/// date-only prefix before the first 'T'.
pub open spec fn formatted_date(s: Seq<char>) -> Seq<char> {
    if s.len() == 0 {
        "Not set"@
    } else {
        date_prefix(s)
    }
}

/// Shows a date-time string as its date-only prefix: the text before the
/// first 'T', the whole value when it has none, and "Not set" when empty.
pub fn format_date(date_str: &str) -> (r: String)
    ensures
        r@ == formatted_date(date_str@),
{
    let v: Vec<char> = chars_of(date_str);
    let n: usize = v.len();
    if n == 0 {
        return String::from_str("Not set");
    }
    let mut out: Vec<char> = Vec::new();
    let mut i: usize = 0;
    proof {
        assert(v@.skip(0) =~= v@);
        assert(out@ + date_prefix(v@) =~= date_prefix(v@));
    }
    while i < n
        invariant
            n == v@.len(),
            i <= n,
            out@ + date_prefix(v@.skip(i as int)) == date_prefix(v@),
        ensures
            out@ == date_prefix(v@),
        decreases n - i,
    {
        let c = v[i];
        proof {
            assert(v@.skip(i as int)[0] == v@[i as int]);
            assert(v@.skip(i as int).drop_first() =~= v@.skip(i + 1));
        }
        if c == 'T' {
            proof {
                assert(date_prefix(v@.skip(i as int)) =~= Seq::<char>::empty());
                assert(out@ =~= date_prefix(v@));
            }
            break ;
        }
        out.push(c);
        i = i + 1;
        proof {
            assert(out@ + date_prefix(v@.skip(i as int)) =~= date_prefix(v@));
        }
    }
    proof {
        if i == n {
            assert(v@.skip(n as int) =~= Seq::<char>::empty());
        }
    }
    chars_to_string(&out)
}

/// Whether membership `i` exists and is in the active state.
pub open spec fn active_at(v: Seq<SprintMembership>, i: int) -> bool {
    0 <= i < v.len() && v[i].state@ == "active"@
}

/// What the sprint banner shows: the first active membership's name, else
/// the first membership's name, else a placeholder.
pub open spec fn banner_ok(sprints: Option<Vec<SprintMembership>>, r: Seq<char>) -> bool {
    match sprints {
        Some(v) => {
            if exists|i: int| active_at(v@, i) {
                exists|i: int|
                    #[trigger] active_at(v@, i) && (forall|j: int| 0 <= j < i ==> !active_at(v@, j))
                        && r == v@[i].name@
            } else if v@.len() > 0 {
                r == v@[0].name@
            } else {
                r == "Unknown Sprint"@
            }
        },
        None => r == "Unknown Sprint"@,
    }
}

/// What the detailed view's sprint field shows: the first active
/// membership's name, else a placeholder.
pub open spec fn active_ok(sprints: Option<Vec<SprintMembership>>, r: Seq<char>) -> bool {
    match sprints {
        Some(v) => {
            if exists|i: int| active_at(v@, i) {
                exists|i: int|
                    #[trigger] active_at(v@, i) && (forall|j: int| 0 <= j < i ==> !active_at(v@, j))
                        && r == v@[i].name@
            } else {
                r == "Not in sprint"@
            }
        },
        None => r == "Not in sprint"@,
    }
}

/// Whether this membership is in the active state.
fn is_active(m: &SprintMembership) -> (r: bool)
    ensures
        r == (m.state@ == "active"@),
{
    let a: Vec<char> = chars_of(m.state.as_str());
    let b: Vec<char> = chars_of("active");
    chars_eq(&a, &b)
}

/// The sprint name shown over the ticket table: the first active
/// membership, else the first membership, else "Unknown Sprint".
pub fn sprint_banner_name(sprints: &Option<Vec<SprintMembership>>) -> (r: String)
    ensures
        banner_ok(*sprints, r@),
{
    match sprints {
        Some(v) => {
            let n: usize = v.len();
            let mut i: usize = 0;
            while i < n
                invariant
                    *sprints == Some(*v),
                    n == v@.len(),
                    i <= n,
                    forall|j: int| 0 <= j < i ==> !active_at(v@, j),
                decreases n - i,
            {
                if is_active(&v[i]) {
                    let nm: String = v[i].name.clone();
                    proof {
                        assert(active_at(v@, i as int));
                        assert(nm@ == v@[i as int].name@);
                        assert(exists|k: int|
                            #[trigger] active_at(v@, k) && (forall|j: int|
                                0 <= j < k ==> !active_at(v@, j)) && nm@ == v@[k].name@);
                        assert(banner_ok(*sprints, nm@));
                    }
                    return nm;
                }
                i = i + 1;
            }
            proof {
                assert(forall|j: int| !active_at(v@, j));
            }
            if n > 0 {
                v[0].name.clone()
            } else {
                String::from_str("Unknown Sprint")
            }
        },
        None => String::from_str("Unknown Sprint"),
    }
}

/// The sprint name shown in the detailed view: the first active
/// membership, else "Not in sprint".
pub fn active_sprint_name(sprints: &Option<Vec<SprintMembership>>) -> (r: String)
    ensures
        active_ok(*sprints, r@),
{
    match sprints {
        Some(v) => {
            let n: usize = v.len();
            let mut i: usize = 0;
            while i < n
                invariant
                    *sprints == Some(*v),
                    n == v@.len(),
                    i <= n,
                    forall|j: int| 0 <= j < i ==> !active_at(v@, j),
                decreases n - i,
            {
                if is_active(&v[i]) {
                    let nm: String = v[i].name.clone();
                    proof {
                        assert(active_at(v@, i as int));
                        assert(nm@ == v@[i as int].name@);
                        assert(exists|k: int|
                            #[trigger] active_at(v@, k) && (forall|j: int|
                                0 <= j < k ==> !active_at(v@, j)) && nm@ == v@[k].name@);
                        assert(active_ok(*sprints, nm@));
                    }
                    return nm;
                }
                i = i + 1;
            }
            proof {
                assert(forall|j: int| !active_at(v@, j));
            }
            String::from_str("Not in sprint")
        },
        None => String::from_str("Not in sprint"),
    }
}

/// The brief view: one line for the key and one for the summary.
pub fn render_brief(key: &str, summary: &str) -> (r: String)
    ensures
        r@ == "Ticket:   "@ + key@ + "\nSummary:  "@ + summary@ + "\n"@,
{
    let mut r: String = String::from_str("Ticket:   ");
    r.append(key);
    r.append("\nSummary:  ");
    r.append(summary);
    r.append("\n");
    r
}

/// The single-line text view: the key, a separator, and the summary.
pub fn render_text_line(key: &str, summary: &str) -> (r: String)
    ensures
        r@ == key@ + ": "@ + summary@ + "\n"@,
{
    let mut r: String = key.to_owned();
    r.append(": ");
    r.append(summary);
    r.append("\n");
    r
}

/// The lowercase hexadecimal character of one digit.
pub open spec fn hex_lo(d: nat) -> char {
    if d < 10 {
        digit_ch(d)
    } else if d == 10 {
        'a'
    } else if d == 11 {
        'b'
    } else if d == 12 {
        'c'
    } else if d == 13 {
        'd'
    } else if d == 14 {
        'e'
    } else {
        'f'
    }
}

/// The lowercase hexadecimal character of one digit.
fn hex_exec(d: u32) -> (c: char)
    requires
        d < 16,
    ensures
        c == hex_lo(d as nat),
{
    if d < 10 {
        crate::text::digit_exec(d)
    } else if d == 10 {
        'a'
    } else if d == 11 {
        'b'
    } else if d == 12 {
        'c'
    } else if d == 13 {
        'd'
    } else if d == 14 {
        'e'
    } else {
        'f'
    }
}

/// How one character stands inside a JSON string: the quote, the
/// backslash and the control characters are escaped, everything else is
/// kept as it is.
pub open spec fn json_escape_ch(c: char) -> Seq<char> {
    if c == '"' {
        seq!['\\', '"']
    } else if c == '\\' {
        seq!['\\', '\\']
    } else if c == '\u{8}' {
        seq!['\\', 'b']
    } else if c == '\t' {
        seq!['\\', 't']
    } else if c == '\n' {
        seq!['\\', 'n']
    } else if c == '\u{C}' {
        seq!['\\', 'f']
    } else if c == '\r' {
        seq!['\\', 'r']
    } else if (c as u32) < 32 {
        seq!['\\', 'u', '0', '0', hex_lo((c as u32 / 16) as nat), hex_lo((c as u32 % 16) as nat)]
    } else {
        seq![c]
    }
}

/// A text escaped for a JSON string.
pub open spec fn json_escaped(s: Seq<char>) -> Seq<char>
    decreases s,
{
    if s.len() == 0 {
        Seq::empty()
    } else {
        json_escape_ch(s[0]) + json_escaped(s.drop_first())
    }
}

/// Appends one character of a JSON string, escaped as needed.
fn push_escaped_ch(out: &mut Vec<char>, c: char)
    ensures
        final(out)@ == old(out)@ + json_escape_ch(c),
{
    if c == '"' {
        out.push('\\');
        out.push('"');
    } else if c == '\\' {
        out.push('\\');
        out.push('\\');
    } else if c == '\u{8}' {
        out.push('\\');
        out.push('b');
    } else if c == '\t' {
        out.push('\\');
        out.push('t');
    } else if c == '\n' {
        out.push('\\');
        out.push('n');
    } else if c == '\u{C}' {
        out.push('\\');
        out.push('f');
    } else if c == '\r' {
        out.push('\\');
        out.push('r');
    } else if (c as u32) < 32 {
        let u: u32 = c as u32;
        out.push('\\');
        out.push('u');
        out.push('0');
        out.push('0');
        out.push(hex_exec(u / 16));
        out.push(hex_exec(u % 16));
    } else {
        out.push(c);
    }
    proof {
        assert(out@ =~= old(out)@ + json_escape_ch(c));
    }
}

/// Appends a text escaped for a JSON string.
fn push_escaped(out: &mut Vec<char>, s: &str)
    ensures
        final(out)@ == old(out)@ + json_escaped(s@),
{
    let v: Vec<char> = chars_of(s);
    let n: usize = v.len();
    let mut i: usize = 0;
    proof {
        assert(v@.skip(0) =~= v@);
        assert(out@ + json_escaped(v@) =~= old(out)@ + json_escaped(s@));
    }
    while i < n
        invariant
            n == v@.len(),
            i <= n,
            out@ + json_escaped(v@.skip(i as int)) == old(out)@ + json_escaped(s@),
        decreases n - i,
    {
        proof {
            assert(v@.skip(i as int)[0] == v@[i as int]);
            assert(v@.skip(i as int).drop_first() =~= v@.skip(i + 1));
        }
        push_escaped_ch(out, v[i]);
        i = i + 1;
    }
    proof {
        assert(v@.skip(n as int) =~= Seq::<char>::empty());
        assert(out@ =~= old(out)@ + json_escaped(s@));
    }
}

/// The JSON view: an object holding exactly the ticket key and the
/// summary, both escaped, and nothing else.
pub fn render_json_line(key: &str, summary: &str) -> (r: String)
    ensures
        r@ == "{\"ticket\":\""@ + json_escaped(key@) + "\",\"summary\":\""@ + json_escaped(
            summary@,
        ) + "\"}\n"@,
{
    let mut out: Vec<char> = Vec::new();
    push_chars(&mut out, "{\"ticket\":\"");
    push_escaped(&mut out, key);
    push_chars(&mut out, "\",\"summary\":\"");
    push_escaped(&mut out, summary);
    push_chars(&mut out, "\"}\n");
    proof {
        assert(out@ =~= "{\"ticket\":\""@ + json_escaped(key@) + "\",\"summary\":\""@
            + json_escaped(summary@) + "\"}\n"@);
    }
    chars_to_string(&out)
}

/// The status label shown for a ticket row: the status, or a placeholder.
pub open spec fn status_label(t: IssueRecord) -> Seq<char> {
    opt_or(t.status, "Unknown"@)
}

/// Whether a cell shows exactly this text, unstyled.
pub open spec fn plain_cell(c: Cell, s: Seq<char>) -> bool {
    c.styled@ == s && c.visible == s.len()
}

/// Whether a table row shows this ticket: its key, its summary truncated
/// to the table's limit, and a status cell that shows the status label in
/// the rule table's style and whose visible length is the label's.
pub open spec fn row_for_ticket(t: IssueRecord, row: Seq<Cell>) -> bool {
    &&& row.len() == 3
    &&& plain_cell(row[0], t.key@)
    &&& row[0].wf()
    &&& plain_cell(row[1], spec_truncate(t.summary@, 58))
    &&& row[1].wf()
    &&& row[2].visible == status_label(t).len()
    &&& row[2].wf()
    &&& (no_reset(status_label(t)) ==> painted_in(
        row[2].styled@,
        status_label(t),
        status_style(lower_of(status_label(t))),
    ))
}

/// The minimum column widths of the ticket table: a wide key column.
pub open spec fn key_mins() -> Seq<usize> {
    seq![20usize, 7usize, 6usize]
}

/// The three cells of one ticket's table row.
pub fn ticket_row_cells(t: &IssueRecord) -> (row: Vec<Cell>)
    requires
        t.key@.len() + 2 <= usize::MAX,
        status_label(*t).len() + 2 <= usize::MAX,
    ensures
        row_for_ticket(*t, row@),
{
    let mut row: Vec<Cell> = Vec::new();
    row.push(Cell::plain(t.key.as_str()));
    let summary: String = truncate_with_ellipsis(t.summary.as_str(), 58);
    row.push(Cell::plain(summary.as_str()));
    let label: &str = opt_str(&t.status, "Unknown");
    row.push(get_colored_status(label));
    row
}

/// Whether `out` is the rendered ticket table: the sprint banner, a blank
/// line, and the three-column table of the tickets' rows, with the key
/// column at least 20 wide. The styled status text is whatever the
/// styling produced; everything else is pinned.
pub open spec fn tickets_table_ok(tickets: Seq<IssueRecord>, out: Seq<char>) -> bool {
    exists|hdr: Seq<Cell>, rows: Seq<Seq<Cell>>, banner: Seq<char>|
        #![trigger banner_ok(tickets[0].sprints, banner), table_text(hdr, rows, widths_of(hdr, rows, key_mins()))]
        {
            &&& banner_ok(tickets[0].sprints, banner)
            &&& hdr.len() == 3
            &&& plain_cell(hdr[0], "Key"@)
            &&& plain_cell(hdr[1], "Summary"@)
            &&& plain_cell(hdr[2], "Status"@)
            &&& rows.len() == tickets.len()
            &&& (forall|r: int| 0 <= r < rows.len() ==> row_for_ticket(tickets[r], #[trigger] rows[r]))
            &&& out == "Current Sprint: "@ + banner + "\n\n"@ + table_text(
                hdr,
                rows,
                widths_of(hdr, rows, key_mins()),
            )
        }
}

/// The tabular view over the caller's sprint tickets: a sprint banner and
/// a Key / Summary / Status table, or a message when there are none.
pub fn render_tickets_table(tickets: &Vec<IssueRecord>) -> (out: String)
    requires
        forall|i: int|
            0 <= i < tickets@.len() ==> (#[trigger] tickets@[i]).key@.len() + 2 <= usize::MAX
                && status_label(tickets@[i]).len() + 2 <= usize::MAX,
    ensures
        tickets@.len() == 0 ==> out@ == "No tickets found in the current sprint.\n"@,
        tickets@.len() > 0 ==> tickets_table_ok(tickets@, out@),
{
    let n: usize = tickets.len();
    if n == 0 {
        return String::from_str("No tickets found in the current sprint.\n");
    }
    let banner: String = sprint_banner_name(&tickets[0].sprints);
    proof {
        reveal_strlit("Key");
        reveal_strlit("Summary");
        reveal_strlit("Status");
    }
    let mut hdr: Vec<Cell> = Vec::new();
    hdr.push(Cell::plain("Key"));
    hdr.push(Cell::plain("Summary"));
    hdr.push(Cell::plain("Status"));
    let mut rows: Vec<Vec<Cell>> = Vec::new();
    let mut r: usize = 0;
    while r < n
        invariant
            n == tickets@.len(),
            r <= n,
            rows@.len() == r,
            forall|i: int|
                0 <= i < tickets@.len() ==> (#[trigger] tickets@[i]).key@.len() + 2 <= usize::MAX
                    && status_label(tickets@[i]).len() + 2 <= usize::MAX,
            forall|j: int| 0 <= j < r ==> row_for_ticket(tickets@[j], #[trigger] rows@[j]@),
        decreases n - r,
    {
        let row: Vec<Cell> = ticket_row_cells(&tickets[r]);
        rows.push(row);
        r = r + 1;
    }
    let mut mins: Vec<usize> = Vec::new();
    mins.push(20);
    mins.push(7);
    mins.push(6);
    proof {
        assert(mins@ =~= key_mins());
        assert forall|r2: int| 0 <= r2 < row_views(rows@).len() implies (#[trigger] row_views(
            rows@,
        )[r2]).len() == 3 by {
            assert(row_views(rows@)[r2] == rows@[r2]@);
        }
        assert forall|r2: int, i: int|
            0 <= r2 < row_views(rows@).len() && 0 <= i < 3 implies (#[trigger] row_views(
            rows@,
        )[r2][i]).wf() by {
            assert(row_views(rows@)[r2] == rows@[r2]@);
            assert(row_for_ticket(tickets@[r2], rows@[r2]@));
        }
    }
    let table: String = render_table(&hdr, &rows, &mins);
    let mut out: String = String::from_str("Current Sprint: ");
    out.append(banner.as_str());
    out.append("\n\n");
    out.append(table.as_str());
    proof {
        let ghost ghdr: Seq<Cell> = hdr@;
        let ghost grows: Seq<Seq<Cell>> = row_views(rows@);
        let ghost gbanner: Seq<char> = banner@;
        assert(banner_ok(tickets@[0].sprints, gbanner));
        assert forall|r2: int| 0 <= r2 < grows.len() implies row_for_ticket(
            tickets@[r2],
            #[trigger] grows[r2],
        ) by {
            assert(grows[r2] == rows@[r2]@);
        }
        assert(out@ == "Current Sprint: "@ + gbanner + "\n\n"@ + table_text(
            ghdr,
            grows,
            widths_of(ghdr, grows, key_mins()),
        ));
        assert(tickets_table_ok(tickets@, out@));
    }
    out
}

/// A text padded with spaces to `w` characters (kept whole when longer).
pub open spec fn pad_to(s: Seq<char>, w: int) -> Seq<char> {
    s + repeat_ch(' ', w - s.len())
}

/// Appends `s` padded to `w` characters.
fn push_padded(out: &mut Vec<char>, s: &str, w: usize)
    ensures
        final(out)@ == old(out)@ + pad_to(s@, w as int),
{
    push_chars(out, s);
    let len: usize = s.unicode_len();
    if len < w {
        crate::table::push_repeat(out, ' ', w - len);
    }
    proof {
        assert(out@ =~= old(out)@ + pad_to(s@, w as int));
    }
}

/// One line of the detailed grid: two label/value pairs, the labels padded
/// to 12 characters and the values to 18, separated by single spaces.
pub open spec fn grid_line(l1: Seq<char>, v1: Seq<char>, l2: Seq<char>, v2: Seq<char>) -> Seq<
    char,
> {
    pad_to(l1, 12) + seq![' '] + pad_to(v1, 18) + seq![' '] + pad_to(l2, 12) + seq![' '] + pad_to(
        v2,
        18,
    ) + seq!['\n']
}

/// The last line of the detailed grid: a single label/value pair.
pub open spec fn half_grid_line(l: Seq<char>, v: Seq<char>) -> Seq<char> {
    pad_to(l, 12) + seq![' '] + pad_to(v, 18) + seq!['\n']
}

/// Appends one line of the detailed grid.
fn push_grid_line(out: &mut Vec<char>, l1: &str, v1: &str, l2: &str, v2: &str)
    ensures
        final(out)@ == old(out)@ + grid_line(l1@, v1@, l2@, v2@),
{
    push_padded(out, l1, 12);
    out.push(' ');
    push_padded(out, v1, 18);
    out.push(' ');
    push_padded(out, l2, 12);
    out.push(' ');
    push_padded(out, v2, 18);
    out.push('\n');
    proof {
        assert(out@ =~= old(out)@ + grid_line(l1@, v1@, l2@, v2@));
    }
}

/// The painted pieces of the detailed view; what the styling wrapped
/// around each text depends on the environment, so they are carried as
/// opaque strings and padded by their own length, as the view does.
pub struct DetailedStyle {
    pub title: String,
    pub key: String,
    pub summary: String,
    pub label_type: String,
    pub label_priority: String,
    pub label_status: String,
    pub label_sprint: String,
    pub label_assignee: String,
    pub label_reporter: String,
    pub label_created: String,
    pub label_updated: String,
    pub label_due: String,
    pub desc_title: String,
    pub status: String,
}

/// The description section of the detailed view: the extracted plain text
/// when there is any, else the raw serialized document, else a
/// placeholder.
pub open spec fn desc_section(t: IssueRecord) -> Seq<char> {
    match t.description {
        Option::None => "No description provided.\n"@,
        Option::Some(d) => match d {
            DescriptionValue::Null => "No description provided.\n"@,
            DescriptionValue::Doc(node, raw) => {
                let txt = lin_top(node.children@);
                if txt.len() > 0 {
                    txt + seq!['\n']
                } else {
                    raw@ + seq!['\n']
                }
            },
        },
    }
}

/// The whole detailed view: a title, the key and summary, the field grid
/// (type/priority, status/sprint, assignee/reporter, created/updated, due
/// date), and the description section. Missing fields show placeholders.
pub open spec fn detailed_text(t: IssueRecord, st: DetailedStyle, sprint_val: Seq<char>) -> Seq<
    char,
> {
    st.title@ + "\n\n"@ + st.key@ + ": "@ + st.summary@ + "\n\n"@ + grid_line(
        st.label_type@,
        opt_or(t.issue_type, "Not set"@),
        st.label_priority@,
        opt_or(t.priority, "Not set"@),
    ) + grid_line(st.label_status@, st.status@, st.label_sprint@, sprint_val) + grid_line(
        st.label_assignee@,
        opt_or(t.assignee, "Unassigned"@),
        st.label_reporter@,
        opt_or(t.reporter, "Unknown"@),
    ) + grid_line(
        st.label_created@,
        formatted_date(opt_or(t.created, "Unknown"@)),
        st.label_updated@,
        formatted_date(opt_or(t.updated, "Unknown"@)),
    ) + half_grid_line(st.label_due@, formatted_date(opt_or(t.due_date, "Not set"@))) + "\n"@
        + st.desc_title@ + "\n\n"@ + desc_section(t)
}

/// Renders the detailed view around the given painted pieces.
#[verifier::rlimit(100)]
pub fn render_detailed_styled(issue: &IssueRecord, st: &DetailedStyle) -> (out: String)
    ensures
        exists|sv: Seq<char>|
            #[trigger] active_ok(issue.sprints, sv) && out@ == detailed_text(*issue, *st, sv),
{
    let sprint_name: String = active_sprint_name(&issue.sprints);
    let mut out: Vec<char> = Vec::new();
    push_chars(&mut out, st.title.as_str());
    push_chars(&mut out, "\n\n");
    push_chars(&mut out, st.key.as_str());
    push_chars(&mut out, ": ");
    push_chars(&mut out, st.summary.as_str());
    push_chars(&mut out, "\n\n");
    let type_val: &str = opt_str(&issue.issue_type, "Not set");
    let prio_val: &str = opt_str(&issue.priority, "Not set");
    push_grid_line(&mut out, st.label_type.as_str(), type_val, st.label_priority.as_str(), prio_val);
    push_grid_line(
        &mut out,
        st.label_status.as_str(),
        st.status.as_str(),
        st.label_sprint.as_str(),
        sprint_name.as_str(),
    );
    let asg_val: &str = opt_str(&issue.assignee, "Unassigned");
    let rep_val: &str = opt_str(&issue.reporter, "Unknown");
    push_grid_line(&mut out, st.label_assignee.as_str(), asg_val, st.label_reporter.as_str(), rep_val);
    let created_val: String = format_date(opt_str(&issue.created, "Unknown"));
    let updated_val: String = format_date(opt_str(&issue.updated, "Unknown"));
    push_grid_line(
        &mut out,
        st.label_created.as_str(),
        created_val.as_str(),
        st.label_updated.as_str(),
        updated_val.as_str(),
    );
    let due_val: String = format_date(opt_str(&issue.due_date, "Not set"));
    push_padded(&mut out, st.label_due.as_str(), 12);
    out.push(' ');
    push_padded(&mut out, due_val.as_str(), 18);
    out.push('\n');
    push_chars(&mut out, "\n");
    push_chars(&mut out, st.desc_title.as_str());
    push_chars(&mut out, "\n\n");
    match &issue.description {
        Option::None => {
            push_chars(&mut out, "No description provided.\n");
        },
        Option::Some(d) => match d {
            DescriptionValue::Null => {
                push_chars(&mut out, "No description provided.\n");
            },
            DescriptionValue::Doc(node, raw) => {
                let txt: String = extract_plain_text_from_description(Some(node));
                if !txt.as_str().is_empty() {
                    push_chars(&mut out, txt.as_str());
                    out.push('\n');
                } else {
                    push_chars(&mut out, raw.as_str());
                    out.push('\n');
                }
            },
        },
    }
    proof {
        assert(out@ =~= detailed_text(*issue, *st, sprint_name@));
        assert(active_ok(issue.sprints, sprint_name@));
    }
    chars_to_string(&out)
}

/// Whether the painted pieces show the detailed view's texts: the titles,
/// the fixed grid labels, the key and summary, each plain or emphasized,
/// and the status label (or its placeholder) plain or in the rule table's
/// style.
pub open spec fn detailed_style_ok(t: IssueRecord, st: DetailedStyle) -> bool {
    &&& painted_bold(st.title@, "TICKET DETAILS"@)
    &&& (no_reset(t.key@) ==> painted_bold(st.key@, t.key@))
    &&& (no_reset(t.summary@) ==> painted_bold(st.summary@, t.summary@))
    &&& painted_bold(st.label_type@, "Type:"@)
    &&& painted_bold(st.label_priority@, "Priority:"@)
    &&& painted_bold(st.label_status@, "Status:"@)
    &&& painted_bold(st.label_sprint@, "Sprint:"@)
    &&& painted_bold(st.label_assignee@, "Assignee:"@)
    &&& painted_bold(st.label_reporter@, "Reporter:"@)
    &&& painted_bold(st.label_created@, "Created:"@)
    &&& painted_bold(st.label_updated@, "Updated:"@)
    &&& painted_bold(st.label_due@, "Due Date:"@)
    &&& painted_bold(st.desc_title@, "DESCRIPTION"@)
    &&& (no_reset(opt_or(t.status, "Not set"@)) ==> painted_in(
        st.status@,
        opt_or(t.status, "Not set"@),
        status_style(lower_of(opt_or(t.status, "Not set"@))),
    ))
}

/// A text free of the escape character holds no reset sequence.
proof fn lemma_label_no_reset(s: Seq<char>)
    requires
        forall|i: int| 0 <= i < s.len() ==> #[trigger] s[i] != '\u{1b}',
    ensures
        no_reset(s),
{
    assert forall|i: int| !crate::text::substring_at(s, crate::status::sgr_reset(), i) by {
        if crate::text::substring_at(s, crate::status::sgr_reset(), i) {
            assert(s.subrange(i, i + 4)[0] == crate::status::sgr_reset()[0]);
            assert(s[i] == '\u{1b}');
            assert(false);
        }
    }
}

/// None of the view's fixed labels holds a reset sequence.
proof fn lemma_labels_hold_no_reset()
    ensures
        no_reset("TICKET DETAILS"@),
        no_reset("Type:"@),
        no_reset("Priority:"@),
        no_reset("Status:"@),
        no_reset("Sprint:"@),
        no_reset("Assignee:"@),
        no_reset("Reporter:"@),
        no_reset("Created:"@),
        no_reset("Updated:"@),
        no_reset("Due Date:"@),
        no_reset("DESCRIPTION"@),
        no_reset("Not set"@),
{
    reveal_strlit("TICKET DETAILS");
    reveal_strlit("Type:");
    reveal_strlit("Priority:");
    reveal_strlit("Status:");
    reveal_strlit("Sprint:");
    reveal_strlit("Assignee:");
    reveal_strlit("Reporter:");
    reveal_strlit("Created:");
    reveal_strlit("Updated:");
    reveal_strlit("Due Date:");
    reveal_strlit("DESCRIPTION");
    reveal_strlit("Not set");
    lemma_label_no_reset("TICKET DETAILS"@);
    lemma_label_no_reset("Type:"@);
    lemma_label_no_reset("Priority:"@);
    lemma_label_no_reset("Status:"@);
    lemma_label_no_reset("Sprint:"@);
    lemma_label_no_reset("Assignee:"@);
    lemma_label_no_reset("Reporter:"@);
    lemma_label_no_reset("Created:"@);
    lemma_label_no_reset("Updated:"@);
    lemma_label_no_reset("Due Date:"@);
    lemma_label_no_reset("DESCRIPTION"@);
    lemma_label_no_reset("Not set"@);
}

/// Paints the fixed pieces of the detailed view: the titles, the key and
/// summary, and the field labels in emphasis, and the status by the rule
/// table. The environment decides whether each piece is wrapped in
/// styling or passed through plain.
pub fn build_detailed_style(issue: &IssueRecord) -> (st: DetailedStyle)
    ensures
        detailed_style_ok(*issue, st),
{
    proof {
        lemma_labels_hold_no_reset();
    }
    DetailedStyle {
        title: paint_bold("TICKET DETAILS"),
        key: paint_bold(issue.key.as_str()),
        summary: paint_bold(issue.summary.as_str()),
        label_type: paint_bold("Type:"),
        label_priority: paint_bold("Priority:"),
        label_status: paint_bold("Status:"),
        label_sprint: paint_bold("Sprint:"),
        label_assignee: paint_bold("Assignee:"),
        label_reporter: paint_bold("Reporter:"),
        label_created: paint_bold("Created:"),
        label_updated: paint_bold("Updated:"),
        label_due: paint_bold("Due Date:"),
        desc_title: paint_bold("DESCRIPTION"),
        status: colored_status_text(opt_str(&issue.status, "Not set")),
    }
}

/// The detailed view of one issue: a title, the key and summary, the
/// field grid and the description section, with the fixed pieces painted
/// for the terminal and showing exactly the view's texts.
pub fn render_detailed(issue: &IssueRecord) -> (out: String)
    ensures
        exists|st: DetailedStyle, sv: Seq<char>|
            #[trigger] active_ok(issue.sprints, sv) && detailed_style_ok(*issue, st) && out@
                == #[trigger] detailed_text(*issue, st, sv),
{
    let st: DetailedStyle = build_detailed_style(issue);
    render_detailed_styled(issue, &st)
}

} // verus!
