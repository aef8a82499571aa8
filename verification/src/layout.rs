//! Sizing decisions for the sidebar's star jar and the pomodoro toaster.
use vstd::prelude::*;
use vstd::string::*;

verus! {

/// Columns one star takes: the glyph and a separating space.
pub const STAR_CELL_WIDTH: u16 = 2;

/// Border and padding columns the star-jar block spends of its width.
pub const STAR_JAR_H_PADDING: u16 = 4;

/// Completions drawn as one purple star once the jar collapses.
pub const STAR_COLLAPSE_GROUP: u64 = 5;

/// One glyph in the jar: a single completion, or a group of five.
#[derive(Clone, Copy, Debug, PartialEq, Eq, Structural)]
pub enum StarKind {
    Yellow,
    Purple,
}

/// How the star jar is drawn this frame.
#[derive(Clone, Debug)]
pub struct StarJarPlan {
    /// Rows the body takes, borders excluded.
    pub body_rows: u16,
    /// Glyphs per row, left to right; one empty row when the jar is empty.
    pub rows: Vec<Vec<StarKind>>,
}

/// Stars that fit on one row of a sidebar `width` columns wide (at least one).
pub open spec fn stars_per_row(width: int) -> int {
    let inner = if width >= 4 { width - 4 } else { 0 };
    if inner / 2 >= 1 { inner / 2 } else { 1 }
}

/// Rows needed to draw `count` stars `per` to a row.
pub open spec fn ceil_div(count: int, per: int) -> int {
    count / per + if count % per == 0 { 0int } else { 1int }
}

/// Whether drawing one yellow star per completion would outgrow the
/// `max_body_rows` budget (a budget of 0 counts as 1), so that groups of
/// five are drawn as one purple star instead.
pub open spec fn star_jar_collapsed(width: int, max_body_rows: int, count: int) -> bool {
    let max = if max_body_rows >= 1 { max_body_rows } else { 1 };
    ceil_div(count, stars_per_row(width)) > max
}

/// Number of glyphs drawn for `count` completions.
pub open spec fn star_glyphs(width: int, max_body_rows: int, count: int) -> int {
    if star_jar_collapsed(width, max_body_rows, count) {
        count / 5 + count % 5
    } else {
        count
    }
}

/// The `k`-th glyph: purples first when collapsed, yellows otherwise.
pub open spec fn star_kind_at(width: int, max_body_rows: int, count: int, k: int) -> StarKind {
    if star_jar_collapsed(width, max_body_rows, count) && k < count / 5 {
        StarKind::Purple
    } else {
        StarKind::Yellow
    }
}

/// Lays out `count` stars for a sidebar `sidebar_width` wide whose jar may
/// use at most `max_body_rows` body rows before collapsing five yellow
/// stars into one purple one.
pub fn plan_star_jar(sidebar_width: u16, max_body_rows: u16, count: u64) -> (plan: StarJarPlan)
    requires
        count <= usize::MAX,
    ensures
        ({
            let per = stars_per_row(sidebar_width as int);
            let n = star_glyphs(sidebar_width as int, max_body_rows as int, count as int);
            let rows = plan.rows@;
            if count == 0 {
                &&& plan.body_rows == 1
                &&& rows.len() == 1
                &&& rows[0]@.len() == 0
            } else {
                &&& rows.len() * per >= n
                &&& (rows.len() - 1) * per < n
                &&& plan.body_rows as int == if rows.len() % 0x10000 >= 1 {
                    rows.len() % 0x10000
                } else {
                    1
                }
                &&& forall|r: int|
                    0 <= r < rows.len() ==> (#[trigger] rows[r])@.len() == if n - r * per < per {
                        n - r * per
                    } else {
                        per
                    }
                &&& forall|r: int, c: int|
                    0 <= r < rows.len() && 0 <= c < rows[r]@.len() ==> (#[trigger] rows[r]@[c])
                        == star_kind_at(
                        sidebar_width as int,
                        max_body_rows as int,
                        count as int,
                        r * per + c,
                    )
            }
        }),
{
    if count == 0 {
        let mut rows: Vec<Vec<StarKind>> = Vec::new();
        rows.push(Vec::new());
        return StarJarPlan { body_rows: 1, rows };
    }
    let inner_w = sidebar_width.saturating_sub(STAR_JAR_H_PADDING);
    let per_row: u64 = if inner_w / STAR_CELL_WIDTH >= 1 {
        (inner_w / STAR_CELL_WIDTH) as u64
    } else {
        1
    };
    let whole_rows = count / per_row;
    let partial_row = count % per_row != 0;
    let max: u64 = if max_body_rows >= 1 { max_body_rows as u64 } else { 1 };
    let collapsed = whole_rows > max || (whole_rows == max && partial_row);
    let purples: u64 = if collapsed { count / STAR_COLLAPSE_GROUP } else { 0 };
    let n: u64 = if collapsed { count / STAR_COLLAPSE_GROUP + count % STAR_COLLAPSE_GROUP } else { count };
    let ghost w = sidebar_width as int;
    let ghost mr = max_body_rows as int;
    assert(per_row == stars_per_row(w));
    assert(collapsed == star_jar_collapsed(w, mr, count as int));
    assert(n == star_glyphs(w, mr, count as int));
    let n = n as usize;
    let per = per_row as usize;
    let mut rows: Vec<Vec<StarKind>> = Vec::new();
    let mut k: usize = 0;
    assert(rows@.len() * per == 0) by (nonlinear_arith)
        requires
            rows@.len() == 0,
    ;
    while k < n
        invariant
            per == stars_per_row(w),
            per >= 1,
            n == star_glyphs(w, mr, count as int),
            n > 0,
            collapsed == star_jar_collapsed(w, mr, count as int),
            purples == if collapsed { count / 5 } else { 0 },
            k <= n,
            k == rows@.len() * per || (k == n && (rows@.len() - 1) * per < n <= rows@.len() * per),
            k < n ==> k == rows@.len() * per,
            forall|r: int|
                0 <= r < rows@.len() ==> (#[trigger] rows@[r])@.len() == if n - r * per < per {
                    n - r * per
                } else {
                    per as int
                },
            forall|r: int, c: int|
                0 <= r < rows@.len() && 0 <= c < rows@[r]@.len() ==> (#[trigger] rows@[r]@[c])
                    == star_kind_at(w, mr, count as int, r * per + c),
        decreases n - k,
    {
        let end: usize = if n - k < per { n } else { k + per };
        let mut row: Vec<StarKind> = Vec::new();
        let mut j: usize = k;
        while j < end
            invariant
                k <= j <= end <= n,
                row@.len() == j - k,
                purples == if collapsed { count / 5 } else { 0 },
                collapsed == star_jar_collapsed(w, mr, count as int),
                forall|c: int|
                    0 <= c < row@.len() ==> #[trigger] row@[c] == star_kind_at(
                        w,
                        mr,
                        count as int,
                        k + c,
                    ),
            decreases end - j,
        {
            if (j as u64) < purples {
                row.push(StarKind::Purple);
            } else {
                row.push(StarKind::Yellow);
            }
            j += 1;
        }
        let ghost r0 = rows@.len() as int;
        assert(r0 * per + per == (r0 + 1) * per) by (nonlinear_arith);
        rows.push(row);
        k = end;
    }
    let len = rows.len();
    proof {
        let l = len as int;
        assert((l - 1) * per == l * per - per) by (nonlinear_arith);
    }
    let low: u16 = #[verifier::truncate] (len as u16);
    assert(low == len % 0x10000) by (bit_vector)
        requires
            low == #[verifier::truncate] (len as u16),
    ;
    let body_rows: u16 = if low >= 1 { low } else { 1 };
    StarJarPlan { body_rows, rows }
}

/// A session title cut to `inner_width` columns, ending in `…` when cut.
pub open spec fn toaster_title(title: Seq<char>, inner_width: int) -> Seq<char> {
    if title.len() <= inner_width {
        title
    } else if inner_width <= 1 {
        "…"@
    } else {
        title.take(inner_width - 1) + "…"@
    }
}

/// Truncates `title` to fit the pomodoro toaster's width.
pub fn truncate_for_toaster(title: &str, inner_width: u16) -> (r: String)
    ensures
        r@ == toaster_title(title@, inner_width as int),
{
    let width = inner_width as usize;
    let count = title.unicode_len();
    if count <= width {
        return String::from_str(title);
    }
    if width <= 1 {
        return String::from_str("…");
    }
    let head = title.substring_char(0, width - 1);
    let mut out = String::from_str(head);
    out.append("…");
    assert(title@.subrange(0, width - 1) =~= title@.take(width - 1));
    out
}

} // verus!
