//! Fixed-width bordered tables whose cells may carry invisible terminal
//! styling.
//!
//! A styled cell's printed text is longer than what the terminal shows, so
//! each cell carries its visible character count from the point of styling;
//! all width arithmetic uses that count, never the styled text's length.

use vstd::prelude::*;
use vstd::string::StrSliceExecFns;
use vstd::string::StringExecFns;
use crate::text::chars_to_string;
use crate::text::push_chars;

verus! {

/// Box-drawing characters of the table borders.
pub const TOP_LEFT: char = '\u{250C}';

pub const TOP_MID: char = '\u{252C}';

pub const TOP_RIGHT: char = '\u{2510}';

pub const HORIZ: char = '\u{2500}';

pub const VERT: char = '\u{2502}';

pub const MID_LEFT: char = '\u{251C}';

pub const MID_MID: char = '\u{253C}';

pub const MID_RIGHT: char = '\u{2524}';

pub const BOT_LEFT: char = '\u{2514}';

pub const BOT_MID: char = '\u{2534}';

pub const BOT_RIGHT: char = '\u{2518}';

/// A table cell: the text that will be printed, paired with the number of
/// characters the terminal shows for it. Styling control sequences make
/// the two differ, so the visible count is recorded when the cell is made
/// instead of being re-derived from the styled text.
pub struct Cell {
    pub styled: String,
    pub visible: usize,
}

impl Cell {
    /// A cell's column grows by two padding characters, so the visible
    /// length must leave room for that much arithmetic.
    pub open spec fn wf(self) -> bool {
        self.visible + 2 <= usize::MAX
    }

    /// A cell whose printed text is shown in full, character for character.
    pub open spec fn is_plain(self) -> bool {
        self.styled@.len() == self.visible
    }

    /// Builds an unstyled cell: every character of `s` is visible.
    pub fn plain(s: &str) -> (c: Cell)
        requires
            s@.len() + 2 <= usize::MAX,
        ensures
            c.styled@ == s@,
            c.visible == s@.len(),
            c.wf(),
            c.is_plain(),
    {
        let n: usize = s.unicode_len();
        Cell { styled: s.to_owned(), visible: n }
    }
}

/// What truncation leaves of free text: text within the limit is kept
/// whole; longer text keeps its first `max_len - 3` characters and ends in
/// a three-character ellipsis marker.
pub open spec fn spec_truncate(s: Seq<char>, max_len: int) -> Seq<char>
    recommends
        3 <= max_len,
{
    if s.len() <= max_len {
        s
    } else {
        s.subrange(0, max_len - 3) + seq!['.', '.', '.']
    }
}

/// Shortens free text to at most `max_len` visible characters, counting
/// characters (never bytes), so no multi-byte character is split.
pub fn truncate_with_ellipsis(s: &str, max_len: usize) -> (r: String)
    requires
        3 <= max_len,
    ensures
        r@ == spec_truncate(s@, max_len as int),
        r@.len() <= max_len,
{
    let n: usize = s.unicode_len();
    if n <= max_len {
        s.to_owned()
    } else {
        let head = s.substring_char(0, max_len - 3);
        let mut r = head.to_owned();
        r.append("...");
        proof {
            reveal_strlit("...");
            assert("..."@ =~= seq!['.', '.', '.']);
        }
        r
    }
}

/// `count` copies of one character (none for a count of zero or less).
pub open spec fn repeat_ch(c: char, count: int) -> Seq<char>
    decreases count,
{
    if count <= 0 {
        Seq::empty()
    } else {
        repeat_ch(c, count - 1) + seq![c]
    }
}

/// A character repeated `count` times has length `count`.
pub proof fn lemma_repeat_len(c: char, count: int)
    requires
        0 <= count,
    ensures
        repeat_ch(c, count).len() == count,
    decreases count,
{
    if count > 0 {
        lemma_repeat_len(c, count - 1);
    }
}

/// Appends `count` copies of `c` to `out`.
pub(crate) fn push_repeat(out: &mut Vec<char>, c: char, count: usize)
    ensures
        final(out)@ == old(out)@ + repeat_ch(c, count as int),
{
    let mut j: usize = 0;
    proof {
        assert(out@ =~= old(out)@ + repeat_ch(c, 0));
    }
    while j < count
        invariant
            j <= count,
            out@ == old(out)@ + repeat_ch(c, j as int),
        decreases count - j,
    {
        out.push(c);
        j = j + 1;
        proof {
            assert(out@ =~= old(out)@ + repeat_ch(c, j as int));
        }
    }
}

/// The per-row views of a vector of rows.
pub open spec fn row_views(rows: Seq<Vec<Cell>>) -> Seq<Seq<Cell>> {
    rows.map_values(|rv: Vec<Cell>| rv@)
}

/// Whether every row has one cell per column.
pub open spec fn rectangular(rows: Seq<Seq<Cell>>, ncols: int) -> bool {
    forall|r: int| 0 <= r < rows.len() ==> (#[trigger] rows[r]).len() == ncols
}

/// Whether the header and every body cell leave room for the width
/// arithmetic.
pub open spec fn cells_wf(header: Seq<Cell>, rows: Seq<Seq<Cell>>, ncols: int) -> bool {
    &&& (forall|i: int| 0 <= i < ncols ==> (#[trigger] header[i]).wf())
    &&& (forall|r: int, i: int|
        0 <= r < rows.len() && 0 <= i < ncols ==> (#[trigger] rows[r][i]).wf())
}

/// The largest visible length in column `i` among the header cell and the
/// first `upto` body rows.
pub open spec fn max_vis_prefix(header: Seq<Cell>, rows: Seq<Seq<Cell>>, i: int, upto: int) -> int
    decreases upto,
{
    if upto <= 0 {
        header[i].visible as int
    } else {
        let prev = max_vis_prefix(header, rows, i, upto - 1);
        let cur = rows[upto - 1][i].visible as int;
        if cur > prev {
            cur
        } else {
            prev
        }
    }
}

/// The largest visible length in column `i` over the header and all rows.
pub open spec fn max_visible(header: Seq<Cell>, rows: Seq<Seq<Cell>>, i: int) -> int {
    max_vis_prefix(header, rows, i, rows.len() as int)
}

/// The width of column `i`: the largest visible cell length plus two
/// padding characters, floored by the column's minimum width.
pub open spec fn col_width(header: Seq<Cell>, rows: Seq<Seq<Cell>>, mins: Seq<usize>, i: int) -> int {
    let m = max_visible(header, rows, i) + 2;
    if mins[i] as int > m {
        mins[i] as int
    } else {
        m
    }
}

/// All column widths of a table.
pub open spec fn widths_of(header: Seq<Cell>, rows: Seq<Seq<Cell>>, mins: Seq<usize>) -> Seq<
    usize,
> {
    Seq::new(mins.len(), |i: int| col_width(header, rows, mins, i) as usize)
}

/// The column maximum covers each body cell of the column.
proof fn lemma_max_vis_row(header: Seq<Cell>, rows: Seq<Seq<Cell>>, i: int, r: int, upto: int)
    requires
        0 <= r < upto <= rows.len(),
    ensures
        max_vis_prefix(header, rows, i, upto) >= rows[r][i].visible,
    decreases upto,
{
    if r < upto - 1 {
        lemma_max_vis_row(header, rows, i, r, upto - 1);
    }
}

/// Over well-formed cells the column maximum leaves room for the padding
/// arithmetic.
proof fn lemma_max_vis_wf(header: Seq<Cell>, rows: Seq<Seq<Cell>>, ncols: int, i: int, upto: int)
    requires
        0 <= i < ncols,
        0 <= upto <= rows.len(),
        cells_wf(header, rows, ncols),
    ensures
        0 <= max_vis_prefix(header, rows, i, upto),
        max_vis_prefix(header, rows, i, upto) + 2 <= usize::MAX,
    decreases upto,
{
    if upto > 0 {
        lemma_max_vis_wf(header, rows, ncols, i, upto - 1);
    }
}

/// The column maximum covers the header cell of the column.
proof fn lemma_max_vis_header(header: Seq<Cell>, rows: Seq<Seq<Cell>>, i: int, upto: int)
    requires
        0 <= upto <= rows.len(),
    ensures
        max_vis_prefix(header, rows, i, upto) >= header[i].visible,
    decreases upto,
{
    if upto > 0 {
        lemma_max_vis_header(header, rows, i, upto - 1);
    }
}

/// A column is never narrower than any of its cells' visible content: its
/// width covers the header cell and every body cell with two characters of
/// padding to spare, and is at least the column's minimum width.
pub proof fn lemma_col_width_covers(
    header: Seq<Cell>,
    rows: Seq<Seq<Cell>>,
    mins: Seq<usize>,
    i: int,
)
    requires
        0 <= i,
    ensures
        col_width(header, rows, mins, i) >= header[i].visible + 2,
        forall|r: int|
            0 <= r < rows.len() ==> col_width(header, rows, mins, i) >= (
            #[trigger] rows[r][i]).visible + 2,
        col_width(header, rows, mins, i) >= mins[i],
{
    lemma_max_vis_header(header, rows, i, rows.len() as int);
    assert forall|r: int|
        0 <= r < rows.len() implies col_width(header, rows, mins, i) >= (
    #[trigger] rows[r][i]).visible + 2 by {
        lemma_max_vis_row(header, rows, i, r, rows.len() as int);
    }
}

/// No rendered column is narrower than any of its cells' visible content:
/// the widths a table is laid out with cover, in every column, the header
/// cell and every body cell plus the two padding characters, and the
/// column's minimum width.
pub proof fn lemma_widths_cover(header: Seq<Cell>, rows: Seq<Seq<Cell>>, mins: Seq<usize>, i: int)
    requires
        header.len() == mins.len(),
        0 <= i < mins.len(),
        cells_wf(header, rows, mins.len() as int),
    ensures
        widths_of(header, rows, mins)[i] >= header[i].visible + 2,
        forall|r: int|
            0 <= r < rows.len() ==> widths_of(header, rows, mins)[i] >= (
            #[trigger] rows[r][i]).visible + 2,
        widths_of(header, rows, mins)[i] >= mins[i],
{
    lemma_max_vis_wf(header, rows, mins.len() as int, i, rows.len() as int);
    lemma_col_width_covers(header, rows, mins, i);
    assert(widths_of(header, rows, mins)[i] == col_width(header, rows, mins, i));
}

/// Computes the column widths of a table.
pub fn compute_col_widths(header: &Vec<Cell>, rows: &Vec<Vec<Cell>>, mins: &Vec<usize>) -> (w: Vec<
    usize,
>)
    requires
        header@.len() == mins@.len(),
        rectangular(row_views(rows@), header@.len() as int),
        cells_wf(header@, row_views(rows@), header@.len() as int),
    ensures
        w@ == widths_of(header@, row_views(rows@), mins@),
{
    let ncols: usize = header.len();
    let nrows: usize = rows.len();
    let mut w: Vec<usize> = Vec::new();
    let mut i: usize = 0;
    while i < ncols
        invariant
            ncols == header@.len() == mins@.len(),
            nrows == rows@.len(),
            rectangular(row_views(rows@), ncols as int),
            cells_wf(header@, row_views(rows@), ncols as int),
            i <= ncols,
            w@.len() == i,
            forall|j: int|
                0 <= j < i ==> w@[j] == col_width(header@, row_views(rows@), mins@, j),
        decreases ncols - i,
    {
        let mut m: usize = header[i].visible;
        let mut r: usize = 0;
        while r < nrows
            invariant
                ncols == header@.len(),
                nrows == rows@.len(),
                i < ncols,
                rectangular(row_views(rows@), ncols as int),
                cells_wf(header@, row_views(rows@), ncols as int),
                r <= nrows,
                m == max_vis_prefix(header@, row_views(rows@), i as int, r as int),
                m + 2 <= usize::MAX,
            decreases nrows - r,
        {
            let row: &Vec<Cell> = &rows[r];
            proof {
                assert(row_views(rows@)[r as int] == rows@[r as int]@);
                assert(row@.len() == ncols);
            }
            let cv: usize = row[i].visible;
            if cv > m {
                m = cv;
            }
            r = r + 1;
        }
        let mut wi: usize = m + 2;
        if mins[i] > wi {
            wi = mins[i];
        }
        w.push(wi);
        i = i + 1;
    }
    proof {
        assert(w@ =~= widths_of(header@, row_views(rows@), mins@));
    }
    w
}

/// One border line, from column `i` on: before each remaining column a
/// joint, then its run of horizontal bars; a right corner at the end.
pub open spec fn border_tail(widths: Seq<usize>, i: int, mid: char, right: char) -> Seq<char>
    decreases widths.len() - i,
{
    if i < widths.len() {
        seq![mid] + repeat_ch(HORIZ, widths[i] as int) + border_tail(widths, i + 1, mid, right)
    } else {
        seq![right]
    }
}

/// A full border line: left corner, the first column's bars, then joints
/// and bars for the remaining columns, and a right corner.
pub open spec fn border_line(widths: Seq<usize>, left: char, mid: char, right: char) -> Seq<char>
    recommends
        widths.len() >= 1,
{
    seq![left] + repeat_ch(HORIZ, widths[0] as int) + border_tail(widths, 1, mid, right)
}

/// A row line, from cell `i` on: for each cell one leading space, its
/// styled text, padding up to the column width, and a vertical bar.
pub open spec fn row_tail(cells: Seq<Cell>, widths: Seq<usize>, i: int) -> Seq<char>
    decreases cells.len() - i,
{
    if i < cells.len() {
        seq![' '] + cells[i].styled@ + repeat_ch(' ', widths[i] - cells[i].visible - 1)
            + seq![VERT] + row_tail(cells, widths, i + 1)
    } else {
        Seq::empty()
    }
}

/// A full row line: a vertical bar, then each cell padded to its column
/// width. Padding is computed from the cell's visible length, so styled
/// text does not push the border.
pub open spec fn row_line(cells: Seq<Cell>, widths: Seq<usize>) -> Seq<char> {
    seq![VERT] + row_tail(cells, widths, 0)
}

/// Appends a border line to `out`.
fn push_border(out: &mut Vec<char>, widths: &Vec<usize>, left: char, mid: char, right: char)
    requires
        widths@.len() >= 1,
    ensures
        final(out)@ == old(out)@ + border_line(widths@, left, mid, right),
{
    let ncols: usize = widths.len();
    out.push(left);
    push_repeat(out, HORIZ, widths[0]);
    let mut i: usize = 1;
    proof {
        assert(out@ + border_tail(widths@, 1, mid, right) =~= old(out)@ + border_line(
            widths@,
            left,
            mid,
            right,
        ));
    }
    while i < ncols
        invariant
            ncols == widths@.len(),
            1 <= i <= ncols,
            out@ + border_tail(widths@, i as int, mid, right) == old(out)@ + border_line(
                widths@,
                left,
                mid,
                right,
            ),
        decreases ncols - i,
    {
        out.push(mid);
        push_repeat(out, HORIZ, widths[i]);
        i = i + 1;
        proof {
            assert(out@ + border_tail(widths@, i as int, mid, right) =~= old(out)@ + border_line(
                widths@,
                left,
                mid,
                right,
            ));
        }
    }
    out.push(right);
    proof {
        assert(out@ =~= old(out)@ + border_line(widths@, left, mid, right));
    }
}

/// Appends a row line to `out`.
fn push_row(out: &mut Vec<char>, cells: &Vec<Cell>, widths: &Vec<usize>)
    requires
        cells@.len() == widths@.len(),
        forall|i: int|
            0 <= i < cells@.len() ==> widths@[i] >= (#[trigger] cells@[i]).visible + 1,
    ensures
        final(out)@ == old(out)@ + row_line(cells@, widths@),
{
    let ncols: usize = cells.len();
    out.push(VERT);
    let mut i: usize = 0;
    proof {
        assert(out@ + row_tail(cells@, widths@, 0) =~= old(out)@ + row_line(cells@, widths@));
    }
    while i < ncols
        invariant
            ncols == cells@.len() == widths@.len(),
            i <= ncols,
            forall|j: int|
                0 <= j < ncols ==> widths@[j] >= (#[trigger] cells@[j]).visible + 1,
            out@ + row_tail(cells@, widths@, i as int) == old(out)@ + row_line(cells@, widths@),
        decreases ncols - i,
    {
        out.push(' ');
        let cell: &Cell = &cells[i];
        push_chars(out, cell.styled.as_str());
        push_repeat(out, ' ', widths[i] - cell.visible - 1);
        out.push(VERT);
        i = i + 1;
        proof {
            assert(out@ + row_tail(cells@, widths@, i as int) =~= old(out)@ + row_line(
                cells@,
                widths@,
            ));
        }
    }
}

/// The body of a table, from row `r` on: each row's line, with a
/// separator line between consecutive rows.
pub open spec fn body_from(rows: Seq<Seq<Cell>>, widths: Seq<usize>, r: int) -> Seq<char>
    decreases rows.len() - r,
{
    if r < rows.len() {
        row_line(rows[r], widths) + seq!['\n'] + (if r + 1 < rows.len() {
            border_line(widths, MID_LEFT, MID_MID, MID_RIGHT) + seq!['\n']
        } else {
            Seq::empty()
        }) + body_from(rows, widths, r + 1)
    } else {
        Seq::empty()
    }
}

/// The full rendered table: top border, header row, a separator when body
/// rows follow, the body rows with separators between consecutive rows,
/// and the bottom border. Every line ends in a newline.
pub open spec fn table_text(header: Seq<Cell>, rows: Seq<Seq<Cell>>, widths: Seq<usize>) -> Seq<
    char,
> {
    border_line(widths, TOP_LEFT, TOP_MID, TOP_RIGHT) + seq!['\n'] + row_line(header, widths)
        + seq!['\n'] + (if rows.len() > 0 {
        border_line(widths, MID_LEFT, MID_MID, MID_RIGHT) + seq!['\n']
    } else {
        Seq::empty()
    }) + body_from(rows, widths, 0) + border_line(widths, BOT_LEFT, BOT_MID, BOT_RIGHT)
        + seq!['\n']
}

/// Renders a bordered table from a header row and body rows; column
/// widths come from the largest visible cell of each column, floored by
/// `mins`.
pub fn render_table(header: &Vec<Cell>, rows: &Vec<Vec<Cell>>, mins: &Vec<usize>) -> (out: String)
    requires
        1 <= header@.len() == mins@.len(),
        rectangular(row_views(rows@), header@.len() as int),
        cells_wf(header@, row_views(rows@), header@.len() as int),
    ensures
        out@ == table_text(
            header@,
            row_views(rows@),
            widths_of(header@, row_views(rows@), mins@),
        ),
{
    let w: Vec<usize> = compute_col_widths(header, rows, mins);
    let ghost rv: Seq<Seq<Cell>> = row_views(rows@);
    proof {
        assert forall|i: int| 0 <= i < header@.len() implies w@[i] >= (
        #[trigger] header@[i]).visible + 1 by {
            lemma_max_vis_wf(header@, rv, header@.len() as int, i, rv.len() as int);
            lemma_col_width_covers(header@, rv, mins@, i);
            assert(w@[i] == col_width(header@, rv, mins@, i));
        }
        assert forall|r: int, i: int|
            0 <= r < rv.len() && 0 <= i < header@.len() implies w@[i] >= (
        #[trigger] rv[r][i]).visible + 1 by {
            lemma_max_vis_wf(header@, rv, header@.len() as int, i, rv.len() as int);
            lemma_col_width_covers(header@, rv, mins@, i);
            assert(w@[i] == col_width(header@, rv, mins@, i));
        }
    }
    let mut out: Vec<char> = Vec::new();
    push_border(&mut out, &w, TOP_LEFT, TOP_MID, TOP_RIGHT);
    out.push('\n');
    push_row(&mut out, header, &w);
    out.push('\n');
    let nrows: usize = rows.len();
    if nrows > 0 {
        push_border(&mut out, &w, MID_LEFT, MID_MID, MID_RIGHT);
        out.push('\n');
    }
    let ghost target: Seq<char> = table_text(header@, rv, w@);
    proof {
        assert(out@ + body_from(rv, w@, 0) + border_line(w@, BOT_LEFT, BOT_MID, BOT_RIGHT)
            + seq!['\n'] =~= target);
    }
    let mut r: usize = 0;
    while r < nrows
        invariant
            nrows == rows@.len(),
            rv == row_views(rows@),
            1 <= header@.len() == w@.len(),
            rectangular(rv, header@.len() as int),
            forall|r2: int, i: int|
                0 <= r2 < rv.len() && 0 <= i < header@.len() ==> w@[i] >= (
                #[trigger] rv[r2][i]).visible + 1,
            r <= nrows,
            out@ + body_from(rv, w@, r as int) + border_line(w@, BOT_LEFT, BOT_MID, BOT_RIGHT)
                + seq!['\n'] == target,
        decreases nrows - r,
    {
        let row: &Vec<Cell> = &rows[r];
        proof {
            assert(rv[r as int] == rows@[r as int]@);
        }
        push_row(&mut out, row, &w);
        out.push('\n');
        if r + 1 < nrows {
            push_border(&mut out, &w, MID_LEFT, MID_MID, MID_RIGHT);
            out.push('\n');
        }
        r = r + 1;
        proof {
            assert(out@ + body_from(rv, w@, r as int) + border_line(
                w@,
                BOT_LEFT,
                BOT_MID,
                BOT_RIGHT,
            ) + seq!['\n'] =~= target);
        }
    }
    push_border(&mut out, &w, BOT_LEFT, BOT_MID, BOT_RIGHT);
    out.push('\n');
    proof {
        assert(out@ =~= target);
    }
    chars_to_string(&out)
}

/// The total printed width of a table: each column's width plus its
/// leading border character, from column `i` on, plus one.
pub open spec fn sum_from(widths: Seq<usize>, i: int) -> int
    decreases widths.len() - i,
{
    if i < widths.len() {
        1 + widths[i] + sum_from(widths, i + 1)
    } else {
        0
    }
}

/// The width every printed line of a table shares.
pub open spec fn total_width(widths: Seq<usize>) -> int {
    1 + sum_from(widths, 0)
}

/// The length of a border tail.
proof fn lemma_border_tail_len(widths: Seq<usize>, i: int, mid: char, right: char)
    requires
        0 <= i,
    ensures
        border_tail(widths, i, mid, right).len() == sum_from(widths, i) + 1,
    decreases widths.len() - i,
{
    if i < widths.len() {
        lemma_repeat_len(HORIZ, widths[i] as int);
        lemma_border_tail_len(widths, i + 1, mid, right);
    }
}

/// Every border line of a table is exactly the table's total width.
pub proof fn lemma_border_line_len(widths: Seq<usize>, left: char, mid: char, right: char)
    requires
        widths.len() >= 1,
    ensures
        border_line(widths, left, mid, right).len() == total_width(widths),
{
    lemma_repeat_len(HORIZ, widths[0] as int);
    lemma_border_tail_len(widths, 1, mid, right);
}

/// The length of a row tail over plain cells.
proof fn lemma_row_tail_len(cells: Seq<Cell>, widths: Seq<usize>, i: int)
    requires
        0 <= i,
        cells.len() == widths.len(),
        forall|j: int|
            0 <= j < cells.len() ==> (#[trigger] cells[j]).is_plain() && widths[j] >= cells[j].visible + 1,
    ensures
        row_tail(cells, widths, i).len() == sum_from(widths, i),
    decreases cells.len() - i,
{
    if i < cells.len() {
        lemma_repeat_len(' ', widths[i] - cells[i].visible - 1);
        lemma_row_tail_len(cells, widths, i + 1);
    }
}

/// A row line of plain cells is exactly the table's total width: the
/// rendered and the measured width agree for every row.
pub proof fn lemma_row_line_len(cells: Seq<Cell>, widths: Seq<usize>)
    requires
        cells.len() == widths.len(),
        forall|j: int|
            0 <= j < cells.len() ==> (#[trigger] cells[j]).is_plain() && widths[j] >= cells[j].visible + 1,
    ensures
        row_line(cells, widths).len() == total_width(widths),
{
    lemma_row_tail_len(cells, widths, 0);
}

/// The characters a row's cells carry beyond what the terminal shows,
/// from cell `i` on: each cell's printed length less its visible length.
pub open spec fn styling_overhead(cells: Seq<Cell>, i: int) -> int
    decreases cells.len() - i,
{
    if i < cells.len() {
        (cells[i].styled@.len() - cells[i].visible) + styling_overhead(cells, i + 1)
    } else {
        0
    }
}

/// The length of a row tail over possibly styled cells.
proof fn lemma_row_tail_len_styled(cells: Seq<Cell>, widths: Seq<usize>, i: int)
    requires
        0 <= i,
        cells.len() == widths.len(),
        forall|j: int|
            0 <= j < cells.len() ==> (#[trigger] cells[j]).styled@.len() >= cells[j].visible
                && widths[j] >= cells[j].visible + 1,
    ensures
        row_tail(cells, widths, i).len() == sum_from(widths, i) + styling_overhead(cells, i),
    decreases cells.len() - i,
{
    if i < cells.len() {
        lemma_repeat_len(' ', widths[i] - cells[i].visible - 1);
        lemma_row_tail_len_styled(cells, widths, i + 1);
    }
}

/// A row line of possibly styled cells is longer than the table's total
/// width by exactly the styling characters its cells carry: a measurement
/// that does not count those characters gives every row the width the
/// border lines have.
pub proof fn lemma_row_line_len_styled(cells: Seq<Cell>, widths: Seq<usize>)
    requires
        cells.len() == widths.len(),
        forall|j: int|
            0 <= j < cells.len() ==> (#[trigger] cells[j]).styled@.len() >= cells[j].visible
                && widths[j] >= cells[j].visible + 1,
    ensures
        row_line(cells, widths).len() == total_width(widths) + styling_overhead(cells, 0),
{
    lemma_row_tail_len_styled(cells, widths, 0);
}

} // verus!
