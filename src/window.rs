//! Which contiguous run of rows fits in the height available, given a scroll
//! offset and an optional selected row that must stay visible.
use crate::layout::spec_min;
use crate::table::Row;
use vstd::prelude::*;

verus! {

/// The height a row takes in the scroll, its bottom margin included.
pub open spec fn row_total(r: Row) -> int {
    spec_min(r.height + r.bottom_margin, u16::MAX as int)
}

/// The summed total height of rows `a` up to, not including, `b`.
pub open spec fn span(rows: Seq<Row>, a: int, b: int) -> int
    decreases b - a,
{
    if b <= a {
        0
    } else {
        span(rows, a, b - 1) + row_total(rows[b - 1])
    }
}

/// Rows are taken from `end` on while the height taken so far plus the
/// row's own height (its margin left out) stays within `max`; each row taken
/// adds its total height. Yields the new end and height.
pub open spec fn grow(rows: Seq<Row>, end: int, acc: int, max: int) -> (int, int)
    decreases rows.len() - end,
{
    if 0 <= end < rows.len() && acc + rows[end].height <= max {
        grow(rows, end + 1, acc + row_total(rows[end]), max)
    } else {
        (end, acc)
    }
}

/// Rows are dropped from the front while the height exceeds `max`.
pub open spec fn evict_front(rows: Seq<Row>, start: int, acc: int, max: int) -> (int, int)
    decreases rows.len() - start,
{
    if acc > max && 0 <= start < rows.len() {
        evict_front(rows, start + 1, acc - row_total(rows[start]), max)
    } else {
        (start, acc)
    }
}

/// Rows are dropped from the back while the height exceeds `max`.
pub open spec fn evict_back(rows: Seq<Row>, end: int, acc: int, max: int) -> (int, int)
    decreases end,
{
    if acc > max && 0 < end <= rows.len() {
        evict_back(rows, end - 1, acc - row_total(rows[end - 1]), max)
    } else {
        (end, acc)
    }
}

/// The window is extended forward one row at a time until it holds row `s`,
/// dropping rows from the front whenever it grows too tall.
pub open spec fn scroll_down(rows: Seq<Row>, s: int, start: int, end: int, acc: int, max: int) -> (
    int,
    int,
    int,
)
    decreases rows.len() - end,
{
    if 0 <= end < rows.len() && s >= end {
        let (st, a) = evict_front(rows, start, acc + row_total(rows[end]), max);
        scroll_down(rows, s, st, end + 1, a, max)
    } else {
        (start, end, acc)
    }
}

/// The window is extended backward one row at a time until it holds row
/// `s`, dropping rows from the back whenever it grows too tall.
pub open spec fn scroll_up(rows: Seq<Row>, s: int, start: int, end: int, acc: int, max: int) -> (
    int,
    int,
    int,
)
    decreases start,
{
    if s < start && 0 < start <= rows.len() {
        let (en, a) = evict_back(rows, end, acc + row_total(rows[start - 1]), max);
        scroll_up(rows, s, start - 1, en, a, max)
    } else {
        (start, end, acc)
    }
}

/// An index cut to the last row.
pub open spec fn clamp_index(rows: Seq<Row>, i: int) -> int {
    spec_min(i, rows.len() - 1)
}

/// The visible window `(start, end)` over a non-empty list of rows.
pub open spec fn window(rows: Seq<Row>, selected: Option<usize>, offset: int, max: int) -> (int, int) {
    let off = clamp_index(rows, offset);
    let (end, acc) = grow(rows, off, 0, max);
    match selected {
        None => (off, end),
        Some(s0) => {
            let s = clamp_index(rows, s0 as int);
            let (st, en, a) = scroll_down(rows, s, off, end, acc, max);
            let (st2, en2, a2) = scroll_up(rows, s, st, en, a, max);
            (st2, en2)
        },
    }
}

proof fn lemma_span_front(rows: Seq<Row>, a: int, b: int)
    requires
        0 <= a < b <= rows.len(),
    ensures
        span(rows, a, b) == row_total(rows[a]) + span(rows, a + 1, b),
    decreases b - a,
{
    assert(span(rows, a, a) == 0);
    assert(span(rows, a + 1, a + 1) == 0);
    if b - 1 > a {
        lemma_span_front(rows, a, b - 1);
    }
}

proof fn lemma_span_nonneg(rows: Seq<Row>, a: int, b: int)
    ensures
        0 <= span(rows, a, b),
    decreases b - a,
{
    if b > a {
        lemma_span_nonneg(rows, a, b - 1);
    }
}

pub proof fn lemma_span_grows(rows: Seq<Row>, a: int, b: int, c: int)
    requires
        a <= b <= c,
    ensures
        span(rows, a, b) <= span(rows, a, c),
    decreases c - b,
{
    if c > b {
        lemma_span_grows(rows, a, b, c - 1);
    }
}

/// The visible window over `rows` for a height of `max`, starting from
/// `offset` and holding `selected` where there is one; see `window`.
pub fn row_bounds(rows: &Vec<Row>, selected: Option<usize>, offset: usize, max: u16) -> (r: (
    usize,
    usize,
))
    requires
        rows@.len() > 0,
    ensures
        (r.0 as int, r.1 as int) == window(rows@, selected, offset as int, max as int),
        r.0 <= r.1 <= rows@.len(),
        selected is Some && row_total(rows@[clamp_index(rows@, selected->0 as int)]) <= max ==> r.0
            <= clamp_index(rows@, selected->0 as int) < r.1,
        offset == 0 && span(rows@, 0, rows@.len() as int) <= max ==> r.0 == 0 && r.1 == rows@.len(),
{
    let ghost rs = rows@;
    let n = rows.len();
    let off = if offset < n - 1 {
        offset
    } else {
        n - 1
    };
    let mut start = off;
    let mut end = off;
    let mut acc: u64 = 0;
    let ghost fits_all = offset == 0 && span(rs, 0, n as int) <= max;
    while end < n && acc + rows[end].height as u64 <= max as u64
        invariant
            n == rs.len(),
            rs == rows@,
            start == off,
            off < n,
            off <= end <= n,
            acc == span(rs, off as int, end as int),
            acc <= max + 0xffff,
            grow(rs, off as int, 0, max as int) == grow(rs, end as int, acc as int, max as int),
            fits_all ==> off == 0 && span(rs, 0, n as int) <= max,
        decreases n - end,
    {
        acc = acc + row_total_exec(&rows[end]);
        end = end + 1;
    }
    proof {
        if fits_all && end < n {
            lemma_span_grows(rs, 0, end as int + 1, n as int);
        }
    }
    proof {
        if end == off {
            assert(acc + rs[end as int].height > max);
        }
    }
    let ghost end0 = end;
    let ghost acc0 = acc;
    match selected {
        None => {},
        Some(s0) => {
            let s = if s0 < n - 1 {
                s0
            } else {
                n - 1
            };
            assert(s == clamp_index(rs, s0 as int));
            while s >= end
                invariant
                    n == rs.len(),
                    rs == rows@,
                    s < n,
                    off <= end0 <= end <= n,
                    start <= end,
                    start == off || end > end0,
                    end > end0 ==> (row_total(rs[end - 1]) <= max ==> start < end),
                    end > end0 ==> acc <= max,
                    end == end0 && end == off ==> row_total(rs[off as int]) > max,
                    acc == span(rs, start as int, end as int),
                    acc <= max + 0xffff,
                    scroll_down(rs, s as int, off as int, end0 as int, acc0 as int, max as int)
                        == scroll_down(rs, s as int, start as int, end as int, acc as int, max as int),
                decreases n - end,
            {
                let ghost st_in = start;
                let ghost end_in = end;
                let ghost acc_in = acc;
                acc = acc + row_total_exec(&rows[end]);
                end = end + 1;
                while acc > max as u64
                    invariant
                        n == rs.len(),
                        rs == rows@,
                        start <= end <= n,
                        end == end_in + 1,
                        acc == span(rs, start as int, end as int),
                        acc <= max + 0xffff + 0xffff,
                        row_total(rs[end - 1]) <= max ==> start < end,
                        evict_front(rs, st_in as int, acc_in + row_total(rs[end_in as int]), max as int)
                            == evict_front(rs, start as int, acc as int, max as int),
                    decreases end - start,
                {
                    proof {
                        if start >= end {
                            assert(span(rs, start as int, end as int) == 0);
                        }
                        lemma_span_front(rs, start as int, end as int);
                        lemma_span_nonneg(rs, start as int + 1, end as int);
                        if start + 1 == end {
                            assert(span(rs, start as int, start as int) == 0);
                        }
                    }
                    acc = acc - row_total_exec(&rows[start]);
                    start = start + 1;
                }
            }
            let ghost st3 = start;
            let ghost end3 = end;
            let ghost acc3 = acc;
            while s < start
                invariant
                    n == rs.len(),
                    rs == rows@,
                    s < n,
                    s < st3 ==> s <= start,
                    s >= st3 ==> start == st3,
                    s >= st3 ==> s < end,
                    start <= end <= n,
                    acc == span(rs, start as int, end as int),
                    acc <= max + 0xffff,
                    start < st3 ==> (row_total(rs[start as int]) <= max ==> start < end),
                    scroll_up(rs, s as int, st3 as int, end3 as int, acc3 as int, max as int)
                        == scroll_up(rs, s as int, start as int, end as int, acc as int, max as int),
                decreases start,
            {
                let ghost st_in = start;
                let ghost end_in = end;
                let ghost acc_in = acc;
                start = start - 1;
                proof {
                    lemma_span_front(rs, start as int, end as int);
                }
                acc = acc + row_total_exec(&rows[start]);
                while acc > max as u64
                    invariant
                        n == rs.len(),
                        rs == rows@,
                        start <= end <= n,
                        start == st_in - 1,
                        acc == span(rs, start as int, end as int),
                        acc <= max + 0xffff + 0xffff,
                        row_total(rs[start as int]) <= max ==> start < end,
                        evict_back(rs, end_in as int, acc_in + row_total(rs[start as int]), max as int)
                            == evict_back(rs, end as int, acc as int, max as int),
                    decreases end,
                {
                    proof {
                        if start >= end {
                            assert(span(rs, start as int, end as int) == 0);
                        }
                        lemma_span_nonneg(rs, start as int, end as int - 1);
                        assert(span(rs, start as int, start as int) == 0);
                    }
                    end = end - 1;
                    acc = acc - row_total_exec(&rows[end]);
                }
            }
        },
    }
    (start, end)
}

/// The total height of a row, saturating at the height limit.
pub fn row_total_exec(row: &Row) -> (r: u64)
    ensures
        r == row_total(*row),
{
    row.height.saturating_add(row.bottom_margin) as u64
}

} // verus!
