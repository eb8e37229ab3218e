use vstd::prelude::*;

verus! {

/// `a - b`, floored at zero.
pub open spec fn sat_sub(a: int, b: int) -> int {
    if a >= b {
        a - b
    } else {
        0
    }
}

/// Rows available to entries: the terminal rows minus the fixed chrome
/// (title row, margin row, status row).
pub open spec fn spec_height(rows: int) -> int {
    sat_sub(rows, 3)
}

/// The largest index the selection may reach while scrolling down.
pub open spec fn down_bound(rows: int, len: int) -> int {
    if sat_sub(rows, 1) <= sat_sub(len, 1) {
        sat_sub(rows, 1)
    } else {
        sat_sub(len, 1)
    }
}

/// Selection and viewport top after moving the selection down by `step`.
pub open spec fn spec_scroll_down(p: int, first: int, len: int, rows: int, step: int) -> (int, int) {
    let bound = down_bound(rows, len);
    let p2 = if bound <= p + step {
        bound
    } else {
        p + step
    };
    (p2, sat_sub(p2, sat_sub(spec_height(rows), 1)))
}

/// Selection and viewport top after moving the selection up by `step`.
pub open spec fn spec_scroll_up(p: int, first: int, step: int) -> (int, int) {
    let p2 = sat_sub(p, step);
    (p2, if first <= p2 {
        first
    } else {
        p2
    })
}

/// The viewport invariant: the selection lies inside the window of
/// `spec_height(rows)` rows that starts at `first`, and inside the entries.
pub open spec fn viewport_ok(p: int, first: int, len: int, rows: int) -> bool {
    0 <= first <= p && p < len && p <= first + spec_height(rows) - 1
}

/// Height of the entry viewport, as drawn.
pub fn height_of(rows: usize) -> (h: usize)
    ensures
        h == spec_height(rows as int),
{
    rows.saturating_sub(3)
}

/// Moves the selection down one entry, scrolling the viewport after it.
pub fn scroll_down(p: usize, first: usize, len: usize, rows: usize) -> (r: (usize, usize))
    ensures
        (r.0 as int, r.1 as int) == spec_scroll_down(p as int, first as int, len as int, rows as int, 1),
{
    scroll_down_by(p, first, len, rows, 1)
}

/// Moves the selection down one page, scrolling the viewport after it.
pub fn page_down(p: usize, first: usize, len: usize, rows: usize) -> (r: (usize, usize))
    ensures
        (r.0 as int, r.1 as int) == spec_scroll_down(p as int, first as int, len as int, rows as int,
            sat_sub(spec_height(rows as int), 1)),
{
    let h = height_of(rows);
    scroll_down_by(p, first, len, rows, h.saturating_sub(1))
}

/// Moves the selection up one entry, dragging the viewport top along
/// when the selection passes it.
pub fn scroll_up(p: usize, first: usize) -> (r: (usize, usize))
    ensures
        (r.0 as int, r.1 as int) == spec_scroll_up(p as int, first as int, 1),
{
    let p2 = p.saturating_sub(1);
    (p2, if first <= p2 {
        first
    } else {
        p2
    })
}

/// Moves the selection up one page, dragging the viewport top along
/// when the selection passes it.
pub fn page_up(p: usize, first: usize, rows: usize) -> (r: (usize, usize))
    ensures
        (r.0 as int, r.1 as int) == spec_scroll_up(p as int, first as int,
            sat_sub(spec_height(rows as int), 1)),
{
    let h = height_of(rows);
    let p2 = p.saturating_sub(h.saturating_sub(1));
    (p2, if first <= p2 {
        first
    } else {
        p2
    })
}

fn scroll_down_by(p: usize, first: usize, len: usize, rows: usize, step: usize) -> (r: (usize, usize))
    ensures
        (r.0 as int, r.1 as int) == spec_scroll_down(p as int, first as int, len as int, rows as int, step as int),
{
    let bound = if rows.saturating_sub(1) <= len.saturating_sub(1) {
        rows.saturating_sub(1)
    } else {
        len.saturating_sub(1)
    };
    let p2 = if bound <= p.saturating_add(step) {
        bound
    } else {
        p + step
    };
    let h = height_of(rows);
    (p2, p2.saturating_sub(h.saturating_sub(1)))
}

/// After a downward scroll of a non-empty listing on a viewport of at
/// least one row, the selection stays inside the entries and inside the
/// window that starts at the new viewport top.
pub proof fn lemma_scroll_down_keeps_viewport(p: int, first: int, len: int, rows: int, step: int)
    requires
        len > 0,
        spec_height(rows) >= 1,
        step >= 0,
        p >= 0,
    ensures
        viewport_ok(spec_scroll_down(p, first, len, rows, step).0,
            spec_scroll_down(p, first, len, rows, step).1, len, rows),
{
}

/// After an upward scroll from a state where the viewport invariant
/// held, it holds again.
pub proof fn lemma_scroll_up_keeps_viewport(p: int, first: int, len: int, rows: int, step: int)
    requires
        step >= 0,
        viewport_ok(p, first, len, rows),
    ensures
        viewport_ok(spec_scroll_up(p, first, step).0, spec_scroll_up(p, first, step).1, len, rows),
{
}

/// Scrolling down is idempotent at the bound: when the selection already
/// sits at its lowest reachable index, another downward scroll keeps the
/// selection, and keeps the viewport top whenever the top is the one a
/// downward scroll puts there.
pub proof fn lemma_scroll_down_idempotent(p: int, first: int, len: int, rows: int, step: int)
    requires
        step >= 0,
        p == down_bound(rows, len),
    ensures
        spec_scroll_down(p, first, len, rows, step).0 == p,
        first == sat_sub(p, sat_sub(spec_height(rows), 1)) ==> spec_scroll_down(p, first, len, rows,
            step) == (p, first),
{
}

} // verus!
