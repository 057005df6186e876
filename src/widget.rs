//! Drawing a table into a buffer: header, visible rows, selection marker and
//! cells with their alignment.
use crate::buffer::{
    covers, column_of, row_of, styled_cell,
    inside, lemma_string_written_frame, put_within, same_outside, string_written, styled_region,
    Buffer, BufferCell,
};
use crate::layout::{spec_min, Rect};
use crate::measure::{str_width, str_width_of};
use crate::block::frame_drawn;
use crate::table::{column_spans, should_add_spec, Cell, Row, Table, TableState};
use crate::style::Style;
use crate::text::{Alignment, Line};
use crate::window::{lemma_span_grows, row_total, span, window};
use vstd::prelude::*;

verus! {

/// A value that draws itself into an area of a buffer.
pub trait Widget {
    fn render(self, area: Rect, buf: &mut Buffer)
        requires
            old(buf).wf(),
            area.x + area.width <= u16::MAX,
            area.y + area.height <= u16::MAX,
        ensures
            final(buf).wf(),
            final(buf).area == old(buf).area,
            same_outside(old(buf).content@, final(buf).content@, old(buf).area, area),
    ;
}

/// A value that draws itself into an area of a buffer and keeps a state
/// between draws.
pub trait StatefulWidget {
    type State;

    fn render(self, area: Rect, buf: &mut Buffer, state: &mut Self::State)
        requires
            old(buf).wf(),
            area.x + area.width <= u16::MAX,
            area.y + area.height <= u16::MAX,
        ensures
            final(buf).wf(),
            final(buf).area == old(buf).area,
            same_outside(old(buf).content@, final(buf).content@, old(buf).area, area),
    ;
}

/// The display width of a line, saturating at the coordinate limit.
pub open spec fn line_columns(line: Line) -> int {
    spec_min(str_width_of(line.content@) as int, u16::MAX as int)
}

/// How far from the left of a `width`-wide area a line of `line_width`
/// columns starts: at once when aligned left or unaligned, half the free
/// width in when centered, flush with the right edge when aligned right;
/// never before the left edge.
pub open spec fn line_offset(alignment: Option<Alignment>, width: int, line_width: int) -> int {
    match alignment {
        Some(Alignment::Center) => if width / 2 > line_width / 2 {
            width / 2 - line_width / 2
        } else {
            0
        },
        Some(Alignment::Right) => if width > line_width {
            width - line_width
        } else {
            0
        },
        _ => 0,
    }
}

/// `cells` with the first `i` of `lines` drawn in `area`, line `j` on row `j`,
/// each cut to the width that its offset leaves.
pub open spec fn lines_drawn(
    cells: Seq<BufferCell>,
    buf_area: Rect,
    lines: Seq<Line>,
    area: Rect,
    i: int,
) -> Seq<BufferCell>
    decreases i,
{
    if i <= 0 {
        cells
    } else {
        let line = lines[i - 1];
        let offset = line_offset(line.alignment, area.width as int, line_columns(line));
        string_written(
            lines_drawn(cells, buf_area, lines, area, i - 1),
            buf_area,
            area.x + offset,
            area.y + i - 1,
            line.content@,
            area.width - offset,
            line.style,
        )
    }
}

/// `cells` with `cell` drawn in `area`: its style over the area, then as
/// many of its lines as the area is tall.
pub open spec fn cell_drawn(cells: Seq<BufferCell>, buf_area: Rect, cell: Cell, area: Rect) -> Seq<
    BufferCell,
> {
    lines_drawn(
        styled_region(cells, buf_area, area, cell.style),
        buf_area,
        cell.content.lines@,
        area,
        spec_min(cell.content.lines@.len() as int, area.height as int),
    )
}

proof fn lemma_lines_drawn_frame(cells: Seq<BufferCell>, buf_area: Rect, lines: Seq<Line>, area: Rect, i: int)
    requires
        cells.len() == buf_area.width * buf_area.height,
        0 <= i <= area.height,
        i <= lines.len(),
    ensures
        same_outside(cells, lines_drawn(cells, buf_area, lines, area, i), buf_area, area),
    decreases i,
{
    if i > 0 {
        lemma_lines_drawn_frame(cells, buf_area, lines, area, i - 1);
        let line = lines[i - 1];
        let lw = line_columns(line);
        let offset = line_offset(line.alignment, area.width as int, lw);
        assert(0 <= offset <= area.width) by {
            vstd::arithmetic::div_mod::lemma_div_pos_is_pos(lw, 2);
            vstd::arithmetic::div_mod::lemma_div_pos_is_pos(area.width as int, 2);
            vstd::arithmetic::div_mod::lemma_div_is_ordered_by_denominator(area.width as int, 1, 2);
        }
        lemma_string_written_frame(
            lines_drawn(cells, buf_area, lines, area, i - 1),
            buf_area,
            area.x + offset,
            area.y + i - 1,
            line.content@,
            area.width - offset,
            line.style,
            area,
        );
    }
}

/// Draws `cell` in `area` of the buffer.
pub fn render_cell(buf: &mut Buffer, cell: &Cell, area: Rect)
    requires
        old(buf).wf(),
        area.x + area.width <= u16::MAX,
        area.y + area.height <= u16::MAX,
    ensures
        final(buf).wf(),
        final(buf).area == old(buf).area,
        final(buf).content@ == cell_drawn(old(buf).content@, old(buf).area, *cell, area),
        same_outside(old(buf).content@, final(buf).content@, old(buf).area, area),
{
    buf.set_style(area, cell.style);
    let ghost styled = buf.content@;
    let lines = &cell.content.lines;
    let n = if lines.len() < area.height as usize {
        lines.len()
    } else {
        area.height as usize
    };
    let mut i: usize = 0;
    while i < n
        invariant
            0 <= i <= n,
            n == spec_min(lines@.len() as int, area.height as int),
            lines == &cell.content.lines,
            area.x + area.width <= u16::MAX,
            area.y + area.height <= u16::MAX,
            buf.wf(),
            buf.area == old(buf).area,
            buf.content@ == lines_drawn(styled, buf.area, lines@, area, i as int),
        decreases n - i,
    {
        let line = &lines[i];
        let w = line.width();
        let lw: u16 = if w < u16::MAX as usize {
            w as u16
        } else {
            u16::MAX
        };
        let x_offset: u16 = match line.alignment {
            Some(Alignment::Center) => (area.width / 2).saturating_sub(lw / 2),
            Some(Alignment::Right) => area.width.saturating_sub(lw),
            _ => 0,
        };
        buf.set_line(area.x + x_offset, area.y + i as u16, line, area.width - x_offset);
        i = i + 1;
    }
    proof {
        lemma_lines_drawn_frame(styled, buf.area, lines@, area, n as int);
    }
}

/// The area inside the table's frame, or all of `area` without one.
pub open spec fn table_area(t: Table, area: Rect) -> Rect {
    match t.block {
        Some(b) => crate::block::inner_spec(b, area),
        None => area,
    }
}

/// The height left for the rows once the header has taken its part.
pub open spec fn rows_height(t: Table, area: Rect) -> int {
    let ta = table_area(t, area);
    match t.header {
        Some(h) => ta.height - spec_min(ta.height as int, row_total(h)),
        None => ta.height as int,
    }
}

/// The rows that the header takes.
pub open spec fn header_height(t: Table, area: Rect) -> int {
    let ta = table_area(t, area);
    match t.header {
        Some(h) => spec_min(ta.height as int, row_total(h)),
        None => 0,
    }
}

/// The band that the selected row takes when `t` is drawn over `area` from
/// `state`, where that row is drawn: as wide as the table's area, as tall as
/// the row and cut at the bottom of that area.
pub open spec fn selected_band(t: Table, area: Rect, state: TableState) -> Option<Rect> {
    if area.width == 0 || area.height == 0 || t.rows@.len() == 0 || state.selected is None {
        None
    } else {
        let rh = rows_height(t, area);
        let (start, end) = window(t.rows@, state.selected, state.offset as int, rh);
        let s = state.selected->0 as int;
        let top = span(t.rows@, start, s);
        let ta = table_area(t, area);
        if start <= s < end && top < rh {
            Some(
                Rect {
                    x: ta.x,
                    y: (ta.y + header_height(t, area) + top) as u16,
                    width: ta.width,
                    height: spec_min(t.rows@[s].height as int, rh - top) as u16,
                },
            )
        } else {
            None
        }
    }
}

/// Every cell of `region` shows `style`: the colors it sets, the modifiers it
/// adds and not those it removes.
pub open spec fn shows_style(cells: Seq<BufferCell>, area: Rect, region: Rect, style: Style) -> bool {
    forall|i: int|
        0 <= i < cells.len() && covers(region, column_of(area, i), row_of(area, i)) ==> {
            &&& (style.fg is Some ==> cells[i].fg == style.fg->0)
            &&& (style.bg is Some ==> cells[i].bg == style.bg->0)
            &&& cells[i].modifier & style.sub_modifier == 0
            &&& cells[i].modifier & (style.add_modifier & !style.sub_modifier) == style.add_modifier
                & !style.sub_modifier
        }
}

proof fn lemma_styled_cell_shows(c: BufferCell, style: Style)
    ensures
        style.fg is Some ==> styled_cell(c, style).fg == style.fg->0,
        style.bg is Some ==> styled_cell(c, style).bg == style.bg->0,
        styled_cell(c, style).modifier & style.sub_modifier == 0,
        styled_cell(c, style).modifier & (style.add_modifier & !style.sub_modifier) == style.add_modifier
            & !style.sub_modifier,
{
    let m = c.modifier;
    let a = style.add_modifier;
    let s = style.sub_modifier;
    assert(((m | a) & !s) & s == 0) by (bit_vector);
    assert(((m | a) & !s) & (a & !s) == a & !s) by (bit_vector);
}

/// The offset that a draw of `t` over `area` leaves in a state that held
/// `state`: the start of the visible window, where there are rows and an area
/// to draw in.
pub open spec fn offset_after(t: Table, area: Rect, state: TableState) -> usize {
    if area.width == 0 || area.height == 0 || t.rows@.len() == 0 {
        state.offset
    } else {
        window(t.rows@, state.selected, state.offset as int, rows_height(t, area)).0 as usize
    }
}

/// The width of the selection column when `t` is drawn from `state`: the
/// display width of the symbol where the spacing rule gives the column width,
/// saturating at the coordinate limit.
pub open spec fn marker_width(t: Table, state: TableState) -> u16 {
    if should_add_spec(t.highlight_spacing, state.selected is Some) {
        match t.highlight_symbol {
            Some(s) => spec_min(str_width_of(s@) as int, u16::MAX as int) as u16,
            None => 0,
        }
    } else {
        0
    }
}

/// `cells` with the first `k` cells of `row` drawn, cell `j` in column span
/// `j`, on rows `y` to `y + height`.
pub open spec fn cells_drawn(
    cells: Seq<BufferCell>,
    buf_area: Rect,
    cols: Seq<(u16, u16)>,
    row: Row,
    ta: Rect,
    y: u16,
    height: u16,
    k: int,
) -> Seq<BufferCell>
    decreases k,
{
    if k <= 0 {
        cells
    } else {
        cell_drawn(
            cells_drawn(cells, buf_area, cols, row, ta, y, height, k - 1),
            buf_area,
            row.cells@[k - 1],
            Rect { x: (ta.x + cols[k - 1].0) as u16, y, width: cols[k - 1].1, height },
        )
    }
}

/// `cells` with row `i` of `t` drawn at row `y` in a band of `band` rows: the
/// row's style over the band, the selection symbol where the selection column
/// has width and the row is selected, its cells paired with the column spans
/// up to the shorter of the two, and the highlight style last over the band of
/// the selected row.
pub open spec fn row_drawn(
    cells: Seq<BufferCell>,
    buf_area: Rect,
    t: Table,
    ta: Rect,
    cols: Seq<(u16, u16)>,
    sw: u16,
    sel: Option<usize>,
    i: int,
    y: u16,
    band: u16,
) -> Seq<BufferCell> {
    let row = t.rows@[i];
    let row_area = Rect { x: ta.x, y, width: ta.width, height: band };
    let selected = sel == Some(i as usize);
    let a = styled_region(cells, buf_area, row_area, row.style);
    let b = if sw > 0 && selected && t.highlight_symbol is Some {
        string_written(a, buf_area, ta.x as int, y as int, t.highlight_symbol->0@, ta.width as int, row.style)
    } else {
        a
    };
    let c = cells_drawn(b, buf_area, cols, row, ta, y, band, spec_min(cols.len() as int, row.cells@.len() as int));
    if selected {
        styled_region(c, buf_area, row_area, t.highlight_style)
    } else {
        c
    }
}

/// `cells` with the first `n` rows of the window from `start` drawn one
/// below the other from row `top` on, each after the total height of those
/// before it; a row that would start `room` rows or more below `top` is not
/// drawn, and a row's band is cut at that limit.
pub open spec fn rows_drawn(
    cells: Seq<BufferCell>,
    buf_area: Rect,
    t: Table,
    ta: Rect,
    cols: Seq<(u16, u16)>,
    sw: u16,
    sel: Option<usize>,
    start: int,
    top: int,
    room: int,
    n: int,
) -> Seq<BufferCell>
    decreases n,
{
    if n <= 0 {
        cells
    } else {
        let prev = rows_drawn(cells, buf_area, t, ta, cols, sw, sel, start, top, room, n - 1);
        let i = start + n - 1;
        let used = span(t.rows@, start, i);
        if used >= room {
            prev
        } else {
            row_drawn(
                prev,
                buf_area,
                t,
                ta,
                cols,
                sw,
                sel,
                i,
                (top + used) as u16,
                spec_min(t.rows@[i].height as int, room - used) as u16,
            )
        }
    }
}

/// `cells` of a buffer over `buf_area` after `t` is drawn over `area` from
/// `state`: nothing for an empty area; else the table's style over the area,
/// the frame, the header (its style over its band, then its cells, at most
/// as tall as the area), then the rows of the visible window.
pub open spec fn table_drawn(cells: Seq<BufferCell>, buf_area: Rect, t: Table, area: Rect, state: TableState) -> Seq<
    BufferCell,
> {
    if area.width == 0 || area.height == 0 {
        cells
    } else {
        let s1 = styled_region(cells, buf_area, area, t.style);
        let s2 = match t.block {
            Some(b) => frame_drawn(s1, buf_area, b, area),
            None => s1,
        };
        let ta = table_area(t, area);
        let sw = marker_width(t, state);
        let cols = column_spans(t.widths@, t.column_spacing, t.segment_size, ta.width, sw);
        let s3 = match t.header {
            Some(h) => cells_drawn(
                styled_region(
                    s2,
                    buf_area,
                    Rect { x: ta.x, y: ta.y, width: ta.width, height: spec_min(ta.height as int, h.height as int) as u16 },
                    h.style,
                ),
                buf_area,
                cols,
                h,
                ta,
                ta.y,
                header_height(t, area) as u16,
                spec_min(cols.len() as int, h.cells@.len() as int),
            ),
            None => s2,
        };
        if t.rows@.len() == 0 {
            s3
        } else {
            let (start, end) = window(t.rows@, state.selected, state.offset as int, rows_height(t, area));
            rows_drawn(
                s3,
                buf_area,
                t,
                ta,
                cols,
                sw,
                state.selected,
                start,
                ta.y + header_height(t, area),
                rows_height(t, area),
                end - start,
            )
        }
    }
}

proof fn lemma_rows_drawn_stops(
    cells: Seq<BufferCell>,
    buf_area: Rect,
    t: Table,
    ta: Rect,
    cols: Seq<(u16, u16)>,
    sw: u16,
    sel: Option<usize>,
    start: int,
    top: int,
    room: int,
    m: int,
    n: int,
)
    requires
        0 <= m <= n,
        span(t.rows@, start, start + m) >= room,
    ensures
        rows_drawn(cells, buf_area, t, ta, cols, sw, sel, start, top, room, n) == rows_drawn(
            cells,
            buf_area,
            t,
            ta,
            cols,
            sw,
            sel,
            start,
            top,
            room,
            m,
        ),
    decreases n - m,
{
    if n > m {
        lemma_rows_drawn_stops(cells, buf_area, t, ta, cols, sw, sel, start, top, room, m, n - 1);
        lemma_span_grows(t.rows@, start, start + m, start + n - 1);
    }
}

impl Table {
    /// Draws the table over `area` and moves the state's offset to the start
    /// of the visible window.
    ///
    /// The table's style covers the area, then the frame is drawn; the header
    /// comes first and does not scroll; the visible rows follow, each with
    /// its style over its band, the selection symbol in front of the selected
    /// row where the selection column takes width, its cells in their
    /// columns, and the highlight style laid last over the selected row. Rows
    /// are cut at the bottom of the table's area.
    pub fn render_into(&self, area: Rect, buf: &mut Buffer, state: &mut TableState)
        requires
            old(buf).wf(),
            area.x + area.width <= u16::MAX,
            area.y + area.height <= u16::MAX,
        ensures
            final(buf).wf(),
            final(buf).area == old(buf).area,
            final(state).selected == old(state).selected,
            final(state).offset == offset_after(*self, area, *old(state)),
            area.width == 0 || area.height == 0 ==> *final(buf) == *old(buf),
            same_outside(old(buf).content@, final(buf).content@, old(buf).area, area),
            selected_band(*self, area, *old(state)) matches Some(b) ==> shows_style(
                final(buf).content@,
                old(buf).area,
                b,
                self.highlight_style,
            ),
            final(buf).content@ == table_drawn(old(buf).content@, old(buf).area, *self, area, *old(state)),
    {
        if area.area() == 0 {
            proof {
                if area.width != 0 && area.height != 0 {
                    vstd::arithmetic::mul::lemma_mul_strictly_positive(area.width as int, area.height as int);
                }
            }
            return ;
        }
        proof {
            if area.width == 0 || area.height == 0 {
                vstd::arithmetic::mul::lemma_mul_basics(area.width as int);
                vstd::arithmetic::mul::lemma_mul_basics(area.height as int);
            }
        }
        buf.set_style(area, self.style);
        let ta = match &self.block {
            Some(b) => {
                let inner = b.inner(area);
                b.render(area, buf);
                inner
            },
            None => area,
        };
        let selection_width: u16 = if self.highlight_spacing.should_add(state.selected.is_some()) {
            match &self.highlight_symbol {
                Some(s) => {
                    let w = str_width(s.as_str());
                    if w < u16::MAX as usize {
                        w as u16
                    } else {
                        u16::MAX
                    }
                },
                None => 0,
            }
        } else {
            0
        };
        assert(inside(ta, area));
        assert(ta == table_area(*self, area));
        assert(selection_width == marker_width(*self, *old(state)));
        let columns = self.get_columns_widths(ta.width, selection_width);
        let mut current: u16 = 0;
        let mut rows_left = ta.height;
        match &self.header {
            Some(header) => {
                let header_total = header.total_height();
                let max_header_height = if ta.height < header_total {
                    ta.height
                } else {
                    header_total
                };
                let band = if ta.height < header.height {
                    ta.height
                } else {
                    header.height
                };
                buf.set_style(Rect { x: ta.x, y: ta.y, width: ta.width, height: band }, header.style);
                self.render_cells(buf, &columns, header, ta, ta.y, max_header_height);
                assert(same_outside(old(buf).content@, buf.content@, buf.area, area));
                current = max_header_height;
                rows_left = ta.height - max_header_height;
            },
            None => {},
        }
        let ghost s3 = buf.content@;
        if self.rows.len() == 0 {
            return ;
        }
        assert(rows_left == rows_height(*self, area));
        let (start, end) = self.get_row_bounds(state.selected, state.offset, rows_left);
        state.offset = start;
        let ghost rows = self.rows@;
        let ghost sel = old(state).selected;
        let ghost hs = self.highlight_style;
        let ghost mut hl: Option<Rect> = None;
        let mut i = start;
        let mut used: u32 = 0;
        while i < end && used < rows_left as u32
            invariant
                rows == self.rows@,
                sel == old(state).selected,
                hs == self.highlight_style,
                (start as int, end as int) == window(rows, sel, old(state).offset as int, rows_left as int),
                rows_left == rows_height(*self, area),
                current == header_height(*self, area),
                ta == table_area(*self, area),
                used == span(rows, start as int, i as int),
                hl == if sel is Some && start <= sel->0 < i && span(rows, start as int, sel->0 as int)
                    < rows_left {
                    Some(
                        Rect {
                            x: ta.x,
                            y: (ta.y + current + span(rows, start as int, sel->0 as int)) as u16,
                            width: ta.width,
                            height: spec_min(
                                rows[sel->0 as int].height as int,
                                rows_left - span(rows, start as int, sel->0 as int),
                            ) as u16,
                        },
                    )
                } else {
                    None::<Rect>
                },
                hl matches Some(b) ==> shows_style(buf.content@, buf.area, b, hs) && b.y + b.height
                    <= ta.y + current + used,
                selection_width == marker_width(*self, *old(state)),
                columns@ == column_spans(
                    self.widths@,
                    self.column_spacing,
                    self.segment_size,
                    ta.width,
                    selection_width,
                ),
                buf.content@ == rows_drawn(
                    s3,
                    buf.area,
                    *self,
                    ta,
                    columns@,
                    selection_width,
                    sel,
                    start as int,
                    ta.y + current,
                    rows_left as int,
                    i - start,
                ),
                start <= i <= end,
                end <= self.rows@.len(),
                ta.x + ta.width <= u16::MAX,
                ta.y + ta.height <= u16::MAX,
                current + rows_left == ta.height,
                used <= u16::MAX + u16::MAX,
                columns@.len() == self.widths@.len(),
                forall|k: int| 0 <= k < columns@.len() ==> columns@[k].0 + columns@[k].1 <= ta.width,
                buf.wf(),
                buf.area == old(buf).area,
                inside(ta, area),
                same_outside(old(buf).content@, buf.content@, buf.area, area),
                state.offset == start,
                state.selected == old(state).selected,
            decreases end - i,
        {
            let row = &self.rows[i];
            let y = ta.y + current + used as u16;
            let room = rows_left - used as u16;
            let band = if row.height < room {
                row.height
            } else {
                room
            };
            let row_area = Rect { x: ta.x, y, width: ta.width, height: band };
            let ghost below = Rect { x: ta.x, y, width: ta.width, height: (ta.y + ta.height - y) as u16 };
            let ghost before_row = buf.content@;
            buf.set_style(row_area, row.style);
            let is_selected = match state.selected {
                Some(s) => s == i,
                None => false,
            };
            if selection_width > 0 && is_selected {
                match &self.highlight_symbol {
                    Some(symbol) => {
                        put_within(buf, ta.x, y, symbol.as_str(), ta.width, row.style, Ghost(below));
                    },
                    None => {},
                }
            }
            self.render_cells(buf, &columns, row, ta, y, band);
            if is_selected {
                let ghost pre_hl = buf.content@;
                buf.set_style(row_area, self.highlight_style);
                proof {
                    assert forall|k: int|
                        0 <= k < buf.content@.len() && covers(
                            row_area,
                            column_of(buf.area, k),
                            row_of(buf.area, k),
                        ) implies {
                        &&& (hs.fg is Some ==> buf.content@[k].fg == hs.fg->0)
                        &&& (hs.bg is Some ==> buf.content@[k].bg == hs.bg->0)
                        &&& buf.content@[k].modifier & hs.sub_modifier == 0
                        &&& buf.content@[k].modifier & (hs.add_modifier & !hs.sub_modifier)
                            == hs.add_modifier & !hs.sub_modifier
                    } by {
                        lemma_styled_cell_shows(pre_hl[k], hs);
                    }
                }
            }
            proof {
                assert(same_outside(before_row, buf.content@, buf.area, below));
                if hl is Some {
                    let b = hl->0;
                    assert forall|k: int|
                        0 <= k < buf.content@.len() && covers(b, column_of(buf.area, k), row_of(buf.area, k))
                            implies buf.content@[k] == before_row[k] by {
                        assert(!covers(below, column_of(buf.area, k), row_of(buf.area, k)));
                    }
                }
                if is_selected {
                    hl = Some(row_area);
                }
            }
            assert(same_outside(old(buf).content@, buf.content@, buf.area, area));
            used = used + row.total_height() as u32;
            i = i + 1;
        }
        proof {
            if sel is Some && i < end && i <= sel->0 {
                lemma_span_grows(rows, start as int, i as int, sel->0 as int);
            }
            if i < end {
                lemma_rows_drawn_stops(
                    s3,
                    buf.area,
                    *self,
                    ta,
                    columns@,
                    selection_width,
                    sel,
                    start as int,
                    ta.y + current,
                    rows_left as int,
                    i - start,
                    end - start,
                );
            }
        }
    }

    /// Draws the cells of `row` in their columns, on rows `y` to `y + height`.
    fn render_cells(
        &self,
        buf: &mut Buffer,
        columns: &Vec<(u16, u16)>,
        row: &Row,
        ta: Rect,
        y: u16,
        height: u16,
    )
        requires
            old(buf).wf(),
            ta.x + ta.width <= u16::MAX,
            y + height <= u16::MAX,
            forall|k: int| 0 <= k < columns@.len() ==> columns@[k].0 + columns@[k].1 <= ta.width,
        ensures
            final(buf).wf(),
            final(buf).area == old(buf).area,
            same_outside(
                old(buf).content@,
                final(buf).content@,
                old(buf).area,
                Rect { x: ta.x, y, width: ta.width, height },
            ),
            final(buf).content@ == cells_drawn(
                old(buf).content@,
                old(buf).area,
                columns@,
                *row,
                ta,
                y,
                height,
                spec_min(columns@.len() as int, row.cells@.len() as int),
            ),
    {
        let n = if columns.len() < row.cells.len() {
            columns.len()
        } else {
            row.cells.len()
        };
        let mut k: usize = 0;
        while k < n
            invariant
                0 <= k <= n,
                n <= columns@.len(),
                n <= row.cells@.len(),
                ta.x + ta.width <= u16::MAX,
                y + height <= u16::MAX,
                forall|k: int| 0 <= k < columns@.len() ==> columns@[k].0 + columns@[k].1 <= ta.width,
                buf.wf(),
                buf.area == old(buf).area,
                same_outside(
                    old(buf).content@,
                    buf.content@,
                    buf.area,
                    Rect { x: ta.x, y, width: ta.width, height },
                ),
                buf.content@ == cells_drawn(old(buf).content@, buf.area, columns@, *row, ta, y, height, k as int),
            decreases n - k,
        {
            let (x, width) = columns[k];
            render_cell(buf, &row.cells[k], Rect { x: ta.x + x, y, width, height });
            k = k + 1;
        }
    }
}

impl Widget for Table {
    /// Draws the table with nothing selected, scrolled to the first row.
    fn render(self, area: Rect, buf: &mut Buffer)
        ensures
            final(buf).content@ == table_drawn(
                old(buf).content@,
                old(buf).area,
                self,
                area,
                TableState { offset: 0, selected: None },
            ),
            area.width == 0 || area.height == 0 ==> *final(buf) == *old(buf),
    {
        let mut state = TableState::default();
        self.render_into(area, buf, &mut state);
    }
}

impl StatefulWidget for Table {
    type State = TableState;

    /// Draws the table and moves the state's offset to the start of the
    /// visible window; see `Table::render_into`.
    fn render(self, area: Rect, buf: &mut Buffer, state: &mut TableState)
        ensures
            final(buf).content@ == table_drawn(old(buf).content@, old(buf).area, self, area, *old(state)),
            final(state).selected == old(state).selected,
            final(state).offset == offset_after(self, area, *old(state)),
            area.width == 0 || area.height == 0 ==> *final(buf) == *old(buf) && *final(state) == *old(
                state,
            ),
            selected_band(self, area, *old(state)) matches Some(b) ==> shows_style(
                final(buf).content@,
                old(buf).area,
                b,
                self.highlight_style,
            ),
    {
        self.render_into(area, buf, state);
    }
}

} // verus!
