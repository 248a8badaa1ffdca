//! Status colorization: a case-insensitive, first-match-wins rule table
//! from status keywords to terminal styles.

use vstd::prelude::*;
use vstd::string::StrSliceExecFns;
use colored::Colorize;
use crate::table::Cell;
use crate::text::chars_of;
use crate::text::contains_chars;
use crate::text::has_substring;

verus! {

/// Whether the literal `needle` occurs anywhere in `hay`.
fn contains_lit(hay: &Vec<char>, needle: &str) -> (r: bool)
    ensures
        r == has_substring(hay@, needle@),
{
    let nv: Vec<char> = chars_of(needle);
    contains_chars(hay, &nv)
}

/// The display style a status label is given. The variants stand in the
/// priority order of the rule table: an earlier variant belongs to an
/// earlier rule.
#[derive(Clone, Copy, Debug, PartialEq, Eq, Structural)]
pub enum StatusStyle {
    BrightGreenBold,
    BrightYellowBold,
    YellowBold,
    BrightBlue,
    Blue,
    Cyan,
    BrightRedBold,
    RedBold,
    White,
}

/// The rule table over an already-lowercased label: the first rule whose
/// keyword occurs in the label decides the style; a label matching no rule
/// is shown plain white.
pub open spec fn status_style(lowered: Seq<char>) -> StatusStyle {
    if has_substring(lowered, "done"@) || has_substring(lowered, "complete"@)
        || has_substring(lowered, "resolved"@) {
        StatusStyle::BrightGreenBold
    } else if has_substring(lowered, "progress"@) || has_substring(lowered, "implement"@)
        || has_substring(lowered, "testing"@) {
        StatusStyle::BrightYellowBold
    } else if has_substring(lowered, "review"@) {
        StatusStyle::YellowBold
    } else if has_substring(lowered, "todo"@) || has_substring(lowered, "open"@) {
        StatusStyle::BrightBlue
    } else if has_substring(lowered, "backlog"@) {
        StatusStyle::Blue
    } else if has_substring(lowered, "selected"@) {
        StatusStyle::Cyan
    } else if has_substring(lowered, "block"@) || has_substring(lowered, "impediment"@) {
        StatusStyle::BrightRedBold
    } else if has_substring(lowered, "cancel"@) || has_substring(lowered, "won't"@)
        || has_substring(lowered, "wont"@) {
        StatusStyle::RedBold
    } else {
        StatusStyle::White
    }
}

/// The style of an already-lowercased label, by the rule table.
pub fn classify_status(lowered: &Vec<char>) -> (st: StatusStyle)
    ensures
        st == status_style(lowered@),
{
    if contains_lit(lowered, "done") || contains_lit(lowered, "complete")
        || contains_lit(lowered, "resolved") {
        StatusStyle::BrightGreenBold
    } else if contains_lit(lowered, "progress") || contains_lit(lowered, "implement")
        || contains_lit(lowered, "testing") {
        StatusStyle::BrightYellowBold
    } else if contains_lit(lowered, "review") {
        StatusStyle::YellowBold
    } else if contains_lit(lowered, "todo") || contains_lit(lowered, "open") {
        StatusStyle::BrightBlue
    } else if contains_lit(lowered, "backlog") {
        StatusStyle::Blue
    } else if contains_lit(lowered, "selected") {
        StatusStyle::Cyan
    } else if contains_lit(lowered, "block") || contains_lit(lowered, "impediment") {
        StatusStyle::BrightRedBold
    } else if contains_lit(lowered, "cancel") || contains_lit(lowered, "won't")
        || contains_lit(lowered, "wont") {
        StatusStyle::RedBold
    } else {
        StatusStyle::White
    }
}

/// The lowercase form of a string's characters.
pub uninterp spec fn lower_of(s: Seq<char>) -> Seq<char>;

/// Relies on str::to_lowercase: its result is determined by the input
/// characters alone (the Unicode lowercase mapping, no locale).
#[verifier::external_body]
fn lowercased(s: &str) -> (r: String)
    ensures
        r@ == lower_of(s@),
{
    s.to_lowercase()
}

/// The style a status label is given: the label is matched case
/// insensitively, so the rule table reads its lowercase form.
pub fn style_for_status(status: &str) -> (st: StatusStyle)
    ensures
        st == status_style(lower_of(status@)),
{
    let lowered = lowercased(status);
    let lowchars: Vec<char> = chars_of(lowered.as_str());
    classify_status(&lowchars)
}

/// The control sequence that closes styled text.
pub open spec fn sgr_reset() -> Seq<char> {
    seq!['\u{1b}', '[', '0', 'm']
}

/// Whether the text holds no reset sequence of its own. Styling then
/// wraps it verbatim; a reset inside the text would be escaped by the
/// styling instead.
pub open spec fn no_reset(s: Seq<char>) -> bool {
    !has_substring(s, sgr_reset())
}

/// The style-setting sequence written before text painted in each style:
/// the emphasis attribute, then the color code.
pub open spec fn style_prefix(st: StatusStyle) -> Seq<char> {
    match st {
        StatusStyle::BrightGreenBold => seq!['\u{1b}', '[', '1', ';', '9', '2', 'm'],
        StatusStyle::BrightYellowBold => seq!['\u{1b}', '[', '1', ';', '9', '3', 'm'],
        StatusStyle::YellowBold => seq!['\u{1b}', '[', '1', ';', '3', '3', 'm'],
        StatusStyle::BrightBlue => seq!['\u{1b}', '[', '9', '4', 'm'],
        StatusStyle::Blue => seq!['\u{1b}', '[', '3', '4', 'm'],
        StatusStyle::Cyan => seq!['\u{1b}', '[', '3', '6', 'm'],
        StatusStyle::BrightRedBold => seq!['\u{1b}', '[', '1', ';', '9', '1', 'm'],
        StatusStyle::RedBold => seq!['\u{1b}', '[', '1', ';', '3', '1', 'm'],
        StatusStyle::White => seq!['\u{1b}', '[', '3', '7', 'm'],
    }
}

/// The style-setting sequence written before emphasized text.
pub open spec fn bold_prefix() -> Seq<char> {
    seq!['\u{1b}', '[', '1', 'm']
}

/// Whether `r` shows the text `s` in the given style: the text unchanged
/// (coloring off), or wrapped in the style's prefix and the reset suffix.
pub open spec fn painted_in(r: Seq<char>, s: Seq<char>, st: StatusStyle) -> bool {
    r == s || r == style_prefix(st) + s + sgr_reset()
}

/// Whether `r` shows the text `s` plain or emphasized.
pub open spec fn painted_bold(r: Seq<char>, s: Seq<char>) -> bool {
    r == s || r == bold_prefix() + s + sgr_reset()
}

/// Relies on colored's Colorize::bright_green and bold, and on
/// ColoredString's Display: with coloring off the text is written
/// unchanged; with it on, the style's escape prefix, the text (any inner
/// reset sequence would be escaped) and the reset suffix. Which of the two
/// happens depends on the environment.
#[verifier::external_body]
fn paint_bright_green_bold(s: &str) -> (r: String)
    ensures
        no_reset(s@) ==> painted_in(r@, s@, StatusStyle::BrightGreenBold),
{
    s.bright_green().bold().to_string()
}

/// Relies on colored's Colorize::bright_yellow and bold (see
/// paint_bright_green_bold on what is promised).
#[verifier::external_body]
fn paint_bright_yellow_bold(s: &str) -> (r: String)
    ensures
        no_reset(s@) ==> painted_in(r@, s@, StatusStyle::BrightYellowBold),
{
    s.bright_yellow().bold().to_string()
}

/// Relies on colored's Colorize::yellow and bold (see
/// paint_bright_green_bold on what is promised).
#[verifier::external_body]
fn paint_yellow_bold(s: &str) -> (r: String)
    ensures
        no_reset(s@) ==> painted_in(r@, s@, StatusStyle::YellowBold),
{
    s.yellow().bold().to_string()
}

/// Relies on colored's Colorize::bright_blue (see paint_bright_green_bold
/// on what is promised).
#[verifier::external_body]
fn paint_bright_blue(s: &str) -> (r: String)
    ensures
        no_reset(s@) ==> painted_in(r@, s@, StatusStyle::BrightBlue),
{
    s.bright_blue().to_string()
}

/// Relies on colored's Colorize::blue (see paint_bright_green_bold on what
/// is promised).
#[verifier::external_body]
fn paint_blue(s: &str) -> (r: String)
    ensures
        no_reset(s@) ==> painted_in(r@, s@, StatusStyle::Blue),
{
    s.blue().to_string()
}

/// Relies on colored's Colorize::cyan (see paint_bright_green_bold on what
/// is promised).
#[verifier::external_body]
fn paint_cyan(s: &str) -> (r: String)
    ensures
        no_reset(s@) ==> painted_in(r@, s@, StatusStyle::Cyan),
{
    s.cyan().to_string()
}

/// Relies on colored's Colorize::bright_red and bold (see
/// paint_bright_green_bold on what is promised).
#[verifier::external_body]
fn paint_bright_red_bold(s: &str) -> (r: String)
    ensures
        no_reset(s@) ==> painted_in(r@, s@, StatusStyle::BrightRedBold),
{
    s.bright_red().bold().to_string()
}

/// Relies on colored's Colorize::red and bold (see paint_bright_green_bold
/// on what is promised).
#[verifier::external_body]
fn paint_red_bold(s: &str) -> (r: String)
    ensures
        no_reset(s@) ==> painted_in(r@, s@, StatusStyle::RedBold),
{
    s.red().bold().to_string()
}

/// Relies on colored's Colorize::white (see paint_bright_green_bold on
/// what is promised).
#[verifier::external_body]
fn paint_white(s: &str) -> (r: String)
    ensures
        no_reset(s@) ==> painted_in(r@, s@, StatusStyle::White),
{
    s.white().to_string()
}

/// Relies on colored's Colorize::bold (see paint_bright_green_bold on what
/// is promised).
#[verifier::external_body]
pub(crate) fn paint_bold(s: &str) -> (r: String)
    ensures
        no_reset(s@) ==> painted_bold(r@, s@),
{
    s.bold().to_string()
}

/// Applies the given style to the text.
fn paint(s: &str, st: StatusStyle) -> (r: String)
    ensures
        no_reset(s@) ==> painted_in(r@, s@, st),
{
    match st {
        StatusStyle::BrightGreenBold => paint_bright_green_bold(s),
        StatusStyle::BrightYellowBold => paint_bright_yellow_bold(s),
        StatusStyle::YellowBold => paint_yellow_bold(s),
        StatusStyle::BrightBlue => paint_bright_blue(s),
        StatusStyle::Blue => paint_blue(s),
        StatusStyle::Cyan => paint_cyan(s),
        StatusStyle::BrightRedBold => paint_bright_red_bold(s),
        StatusStyle::RedBold => paint_red_bold(s),
        StatusStyle::White => paint_white(s),
    }
}

/// Styles a status label for the terminal by the rule table. Whether the
/// environment lets the styling wrap the label or pass it through, the
/// cell's text shows the label in the rule table's style, and the cell
/// records that the terminal shows exactly the label's characters.
pub fn get_colored_status(status: &str) -> (c: Cell)
    requires
        status@.len() + 2 <= usize::MAX,
    ensures
        c.visible == status@.len(),
        c.wf(),
        no_reset(status@) ==> painted_in(c.styled@, status@, status_style(lower_of(status@))),
{
    let st = style_for_status(status);
    let painted = paint(status, st);
    let n: usize = status.unicode_len();
    Cell { styled: painted, visible: n }
}

/// The styled text alone, for callers that pad by the styled length, as
/// the detailed view does: the label plain or wrapped in the rule table's
/// style, the environment deciding which.
pub fn colored_status_text(status: &str) -> (r: String)
    ensures
        no_reset(status@) ==> painted_in(r@, status@, status_style(lower_of(status@))),
{
    let st = style_for_status(status);
    paint(status, st)
}

/// Styled text never shows fewer characters than its label: it is the
/// label itself, or longer than it by exactly the style's prefix and the
/// reset suffix — the invisible characters a width measurement must not
/// count.
pub proof fn lemma_painted_overhead(r: Seq<char>, s: Seq<char>, st: StatusStyle)
    requires
        painted_in(r, s, st),
    ensures
        r.len() == s.len() || r.len() == s.len() + style_prefix(st).len() + sgr_reset().len(),
        r.len() >= s.len(),
{
}

/// First-match-wins, stated of the progress rule: a label whose lowercase
/// form holds a keyword of the progress rule and no keyword of the done
/// rule is styled by the progress rule, whatever keywords of later rules
/// it also holds.
pub proof fn lemma_progress_rule_wins(lowered: Seq<char>)
    requires
        has_substring(lowered, "progress"@) || has_substring(lowered, "implement"@)
            || has_substring(lowered, "testing"@),
        !has_substring(lowered, "done"@),
        !has_substring(lowered, "complete"@),
        !has_substring(lowered, "resolved"@),
    ensures
        status_style(lowered) == StatusStyle::BrightYellowBold,
{
}

} // verus!
