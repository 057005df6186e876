//! A rectangular grid of styled character cells that widgets draw into.
use crate::layout::{spec_min, Rect};
use crate::measure::{char_width, char_width_of, chars_of, str_width, str_width_of};
use crate::style::{plain_style, Color, Style};
use crate::text::Line;
use vstd::prelude::*;

verus! {

/// One character cell of a buffer.
#[derive(Debug, Clone, Copy, PartialEq, Eq, Structural, Hash)]
pub struct BufferCell {
    pub symbol: char,
    pub fg: Color,
    pub bg: Color,
    /// The modifiers in effect, as bits.
    pub modifier: u16,
}

/// A cell with a space and no colors or modifiers.
pub open spec fn blank_cell() -> BufferCell {
    BufferCell { symbol: ' ', fg: Color::Reset, bg: Color::Reset, modifier: 0 }
}

/// `c` with `style` applied: the colors it sets replace the cell's, its
/// modifiers are added, then those it removes are taken away.
pub open spec fn styled_cell(c: BufferCell, style: Style) -> BufferCell {
    BufferCell {
        symbol: c.symbol,
        fg: if style.fg is Some {
            style.fg->0
        } else {
            c.fg
        },
        bg: if style.bg is Some {
            style.bg->0
        } else {
            c.bg
        },
        modifier: (c.modifier | style.add_modifier) & !style.sub_modifier,
    }
}

/// Whether the cell at column `x` and row `y` lies in `r`.
pub open spec fn covers(r: Rect, x: int, y: int) -> bool {
    r.x <= x < r.x + r.width && r.y <= y < r.y + r.height
}

/// The column of the `i`-th cell of a buffer over `area`, row by row.
pub open spec fn column_of(area: Rect, i: int) -> int {
    area.x + i % (area.width as int)
}

/// The row of the `i`-th cell of a buffer over `area`, row by row.
pub open spec fn row_of(area: Rect, i: int) -> int {
    area.y + i / (area.width as int)
}

/// The position in the content of the cell at column `x` and row `y`.
pub open spec fn index_at(area: Rect, x: int, y: int) -> int {
    (y - area.y) * area.width + (x - area.x)
}

/// `cells` with `style` applied to every cell that lies in `region`.
pub open spec fn styled_region(cells: Seq<BufferCell>, area: Rect, region: Rect, style: Style) -> Seq<
    BufferCell,
> {
    Seq::new(
        cells.len(),
        |i: int|
            if covers(region, column_of(area, i), row_of(area, i)) {
                styled_cell(cells[i], style)
            } else {
                cells[i]
            },
    )
}

/// The display width of a character as the buffer counts it: zero for a
/// control character.
pub open spec fn columns_of(c: char) -> int {
    match char_width_of(c) {
        Some(w) => w as int,
        None => 0,
    }
}

/// `cells` with `c` written at `at` and the `w - 1` cells after it blanked,
/// all of them in `style`.
pub open spec fn placed(cells: Seq<BufferCell>, at: int, w: int, c: char, style: Style) -> Seq<
    BufferCell,
> {
    Seq::new(
        cells.len(),
        |i: int|
            if i == at {
                styled_cell(BufferCell { symbol: c, ..cells[i] }, style)
            } else if at < i < at + w {
                styled_cell(BufferCell { symbol: ' ', ..cells[i] }, style)
            } else {
                cells[i]
            },
    )
}

/// `cells` with the characters `cs` written from position `at` on, within a
/// budget of `budget` columns: characters of no width are skipped, and the
/// first that does not fit ends the write.
pub open spec fn written(cells: Seq<BufferCell>, at: int, cs: Seq<char>, budget: int, style: Style) -> Seq<
    BufferCell,
>
    decreases cs.len(),
{
    if cs.len() == 0 {
        cells
    } else {
        let w = columns_of(cs[0]);
        if w == 0 {
            written(cells, at, cs.drop_first(), budget, style)
        } else if w > budget {
            cells
        } else {
            written(placed(cells, at, w, cs[0], style), at + w, cs.drop_first(), budget - w, style)
        }
    }
}

/// `cells` after a write of `cs` at column `x` and row `y`, cut to `max_width`
/// columns and to the right edge of `area`; nothing is written where the
/// position lies outside `area`.
pub open spec fn string_written(
    cells: Seq<BufferCell>,
    area: Rect,
    x: int,
    y: int,
    cs: Seq<char>,
    max_width: int,
    style: Style,
) -> Seq<BufferCell> {
    if covers(area, x, y) {
        written(
            cells,
            index_at(area, x, y),
            cs,
            if max_width < area.x + area.width - x {
                max_width
            } else {
                area.x + area.width - x
            },
            style,
        )
    } else {
        cells
    }
}

/// `c` with `style` applied.
fn apply_style(c: BufferCell, style: Style) -> (r: BufferCell)
    ensures
        r == styled_cell(c, style),
{
    let fg = match style.fg {
        Some(f) => f,
        None => c.fg,
    };
    let bg = match style.bg {
        Some(b) => b,
        None => c.bg,
    };
    BufferCell { symbol: c.symbol, fg, bg, modifier: (c.modifier | style.add_modifier) & !style.sub_modifier }
}

/// Whether `inner` lies within `outer`.
pub open spec fn inside(inner: Rect, outer: Rect) -> bool {
    &&& outer.x <= inner.x
    &&& inner.x + inner.width <= outer.x + outer.width
    &&& outer.y <= inner.y
    &&& inner.y + inner.height <= outer.y + outer.height
}

/// Every cell of a buffer over `area` that lies outside `region` is the same
/// in `after` as in `before`.
pub open spec fn same_outside(before: Seq<BufferCell>, after: Seq<BufferCell>, area: Rect, region: Rect) -> bool {
    &&& after.len() == before.len()
    &&& forall|i: int|
        0 <= i < before.len() && !covers(region, column_of(area, i), row_of(area, i)) ==> after[i]
            == before[i]
}

proof fn lemma_placed_frame(cells: Seq<BufferCell>, at: int, w: int, c: char, style: Style)
    ensures
        placed(cells, at, w, c, style).len() == cells.len(),
        forall|i: int|
            0 <= i < cells.len() && !(at <= i < at + w) && !(i == at) ==> placed(cells, at, w, c, style)[i]
                == cells[i],
{
}

proof fn lemma_written_frame(cells: Seq<BufferCell>, at: int, cs: Seq<char>, budget: int, style: Style)
    ensures
        written(cells, at, cs, budget, style).len() == cells.len(),
        forall|i: int|
            0 <= i < cells.len() && !(at <= i < at + budget) ==> written(cells, at, cs, budget, style)[i]
                == cells[i],
    decreases cs.len(),
{
    if cs.len() > 0 {
        let w = columns_of(cs[0]);
        if w == 0 {
            lemma_written_frame(cells, at, cs.drop_first(), budget, style);
        } else if w <= budget {
            let next = placed(cells, at, w, cs[0], style);
            lemma_placed_frame(cells, at, w, cs[0], style);
            lemma_written_frame(next, at + w, cs.drop_first(), budget - w, style);
        }
    }
}

/// A write of a string at column `x` and row `y`, cut to `max_width`, changes
/// no cell outside `region` when `region` holds those columns of that row.
pub proof fn lemma_string_written_frame(
    cells: Seq<BufferCell>,
    area: Rect,
    x: int,
    y: int,
    cs: Seq<char>,
    max_width: int,
    style: Style,
    region: Rect,
)
    requires
        cells.len() == area.width * area.height,
        region.y <= y < region.y + region.height,
        region.x <= x,
        x + max_width <= region.x + region.width,
    ensures
        same_outside(cells, string_written(cells, area, x, y, cs, max_width, style), area, region),
{
    if covers(area, x, y) {
        let at = index_at(area, x, y);
        let w = area.width as int;
        let budget = if max_width < area.x + area.width - x {
            max_width
        } else {
            area.x + area.width - x
        };
        lemma_written_frame(cells, at, cs, budget, style);
        let after = string_written(cells, area, x, y, cs, max_width, style);
        assert forall|i: int|
            0 <= i < cells.len() && !covers(region, column_of(area, i), row_of(area, i)) implies after[i]
            == cells[i] by {
            if at <= i < at + budget {
                let q = y - area.y;
                let r = x - area.x + (i - at);
                assert(i == q * w + r);
                vstd::arithmetic::div_mod::lemma_fundamental_div_mod_converse(i, w, q, r);
            }
        }
    }
}

/// The widest of the first `i` strings, in display columns.
pub open spec fn widest(ls: Seq<&str>, i: int) -> int
    decreases i,
{
    if i <= 0 {
        0
    } else {
        let w = str_width_of(ls[i - 1]@) as int;
        let rest = widest(ls, i - 1);
        if w > rest {
            w
        } else {
            rest
        }
    }
}

/// `cells` with the first `i` strings written, string `j` on row `j` from
/// the left edge on, unstyled.
pub open spec fn lines_written(cells: Seq<BufferCell>, area: Rect, ls: Seq<&str>, i: int) -> Seq<
    BufferCell,
>
    decreases i,
{
    if i <= 0 {
        cells
    } else {
        string_written(
            lines_written(cells, area, ls, i - 1),
            area,
            area.x as int,
            area.y + i - 1,
            ls[i - 1]@,
            area.width as int,
            plain_style(),
        )
    }
}

/// A grid of cells over a rectangular area, stored row by row.
#[derive(Debug, Clone, PartialEq, Eq, Hash)]
pub struct Buffer {
    pub area: Rect,
    pub content: Vec<BufferCell>,
}

impl Buffer {
    /// Every cell of the area has its place in the content.
    pub open spec fn wf(&self) -> bool {
        self.content@.len() == self.area.width * self.area.height
    }

    /// A buffer over `area` of blank cells.
    pub fn empty(area: Rect) -> (r: Buffer)
        ensures
            r.wf(),
            r.area == area,
            forall|i: int| 0 <= i < r.content@.len() ==> r.content@[i] == blank_cell(),
    {
        proof {
            vstd::arithmetic::mul::lemma_mul_upper_bound(
                area.width as int,
                0xffff,
                area.height as int,
                0xffff,
            );
        }
        let n = (area.width as usize) * (area.height as usize);
        let mut content: Vec<BufferCell> = Vec::new();
        let mut i: usize = 0;
        while i < n
            invariant
                0 <= i <= n,
                content@.len() == i,
                forall|j: int| 0 <= j < i ==> content@[j] == blank_cell(),
            decreases n - i,
        {
            content.push(BufferCell { symbol: ' ', fg: Color::Reset, bg: Color::Reset, modifier: 0 });
            i = i + 1;
        }
        Buffer { area, content }
    }

    /// A buffer at the origin that holds `lines`, one per row, as wide as the
    /// widest of them (up to the coordinate limit).
    pub fn with_lines(lines: Vec<&str>) -> (r: Buffer)
        requires
            lines@.len() <= u16::MAX,
        ensures
            r.wf(),
            r.area == (Rect {
                x: 0,
                y: 0,
                width: spec_min(widest(lines@, lines@.len() as int), u16::MAX as int) as u16,
                height: lines@.len() as u16,
            }),
            r.content@ == lines_written(
                Seq::new(r.content@.len(), |i: int| blank_cell()),
                r.area,
                lines@,
                lines@.len() as int,
            ),
    {
        let n = lines.len();
        let mut width: usize = 0;
        let mut i: usize = 0;
        while i < n
            invariant
                0 <= i <= n,
                n == lines@.len(),
                width == widest(lines@, i as int),
            decreases n - i,
        {
            let w = str_width(lines[i]);
            if w > width {
                width = w;
            }
            i = i + 1;
        }
        let w16: u16 = if width < u16::MAX as usize {
            width as u16
        } else {
            u16::MAX
        };
        let area = Rect { x: 0, y: 0, width: w16, height: n as u16 };
        let mut buf = Buffer::empty(area);
        let ghost blank = buf.content@;
        proof {
            assert(blank =~= Seq::new(blank.len(), |i: int| blank_cell()));
        }
        let mut i: usize = 0;
        while i < n
            invariant
                0 <= i <= n,
                n == lines@.len(),
                n <= u16::MAX,
                area == (Rect { x: 0, y: 0, width: w16, height: n as u16 }),
                buf.wf(),
                buf.area == area,
                blank.len() == buf.content@.len(),
                blank == Seq::new(blank.len(), |i: int| blank_cell()),
                buf.content@ == lines_written(blank, area, lines@, i as int),
            decreases n - i,
        {
            let line: &str = lines[i];
            buf.set_stringn(0, i as u16, line, w16 as usize, Style::new());
            assert(lines_written(blank, area, lines@, i + 1) == string_written(
                lines_written(blank, area, lines@, i as int),
                area,
                0,
                i as int,
                lines@[i as int]@,
                w16 as int,
                plain_style(),
            ));
            i = i + 1;
        }
        buf
    }

    /// Applies `style` to every cell of the buffer that lies in `region`.
    pub fn set_style(&mut self, region: Rect, style: Style)
        requires
            old(self).wf(),
        ensures
            final(self).wf(),
            final(self).area == old(self).area,
            final(self).content@ == styled_region(old(self).content@, old(self).area, region, style),
            same_outside(old(self).content@, final(self).content@, old(self).area, region),
    {
        let ghost before = self.content@;
        let n = self.content.len();
        let w = self.area.width as usize;
        let mut i: usize = 0;
        while i < n
            invariant
                0 <= i <= n,
                n == before.len(),
                w == self.area.width,
                self.wf(),
                self.area == old(self).area,
                before == old(self).content@,
                self.content@.len() == n,
                forall|j: int|
                    0 <= j < i ==> self.content@[j] == styled_region(before, self.area, region, style)[j],
                forall|j: int| i <= j < n ==> self.content@[j] == before[j],
            decreases n - i,
        {
            proof {
                if w == 0 {
                    vstd::arithmetic::mul::lemma_mul_basics(self.area.height as int);
                }
                vstd::arithmetic::mul::lemma_mul_upper_bound(
                    self.area.width as int,
                    0xffff,
                    self.area.height as int,
                    0xffff,
                );
                vstd::arithmetic::div_mod::lemma_div_is_ordered_by_denominator(i as int, 1, w as int);
                vstd::arithmetic::div_mod::lemma_div_basics(i as int);
            }
            let x = self.area.x as u64 + (i % w) as u64;
            let y = self.area.y as u64 + (i / w) as u64;
            if region.x as u64 <= x && x < region.x as u64 + region.width as u64 && region.y as u64
                <= y && y < region.y as u64 + region.height as u64 {
                let c = apply_style(self.content[i], style);
                self.content.set(i, c);
            }
            i = i + 1;
        }
        proof {
            assert(self.content@ =~= styled_region(before, self.area, region, style));
        }
    }

    /// Writes `c` at position `at` of the content and blanks the `w - 1`
    /// cells after it, all in `style`.
    fn place(&mut self, at: usize, w: usize, c: char, style: Style)
        requires
            old(self).wf(),
            0 < w,
            at + w <= old(self).content@.len(),
        ensures
            final(self).wf(),
            final(self).area == old(self).area,
            final(self).content@ == placed(old(self).content@, at as int, w as int, c, style),
    {
        let ghost before = self.content@;
        let len = self.content.len();
        let mut j: usize = 0;
        while j < w
            invariant
                0 <= j <= w,
                len == before.len(),
                at + w <= before.len(),
                self.wf(),
                self.area == old(self).area,
                before == old(self).content@,
                self.content@.len() == before.len(),
                forall|i: int|
                    0 <= i < before.len() ==> #[trigger] self.content@[i] == if at <= i < at + j {
                        placed(before, at as int, w as int, c, style)[i]
                    } else {
                        before[i]
                    },
            decreases w - j,
        {
            let old_cell = self.content[at + j];
            let symbol = if j == 0 {
                c
            } else {
                ' '
            };
            let cell = apply_style(
                BufferCell { symbol, fg: old_cell.fg, bg: old_cell.bg, modifier: old_cell.modifier },
                style,
            );
            self.content.set(at + j, cell);
            j = j + 1;
        }
        proof {
            assert(self.content@ =~= placed(before, at as int, w as int, c, style));
        }
    }

    /// Writes `s` from column `x` of row `y` on, in `style`, over at most
    /// `max_width` columns and never past the right edge of the buffer.
    /// Characters of no width are skipped; a position outside the buffer
    /// writes nothing.
    pub fn set_stringn(&mut self, x: u16, y: u16, s: &str, max_width: usize, style: Style)
        requires
            old(self).wf(),
        ensures
            final(self).wf(),
            final(self).area == old(self).area,
            final(self).content@ == string_written(
                old(self).content@,
                old(self).area,
                x as int,
                y as int,
                s@,
                max_width as int,
                style,
            ),
            forall|region: Rect|
                region.y <= y < region.y + region.height && region.x <= x && x + max_width
                    <= region.x + region.width ==> #[trigger] same_outside(
                    old(self).content@,
                    final(self).content@,
                    old(self).area,
                    region,
                ),
    {
        proof {
            assert forall|region: Rect|
                region.y <= y < region.y + region.height && region.x <= x && x + max_width
                    <= region.x + region.width implies #[trigger] same_outside(
                old(self).content@,
                string_written(
                    old(self).content@,
                    old(self).area,
                    x as int,
                    y as int,
                    s@,
                    max_width as int,
                    style,
                ),
                old(self).area,
                region,
            ) by {
                lemma_string_written_frame(
                    old(self).content@,
                    old(self).area,
                    x as int,
                    y as int,
                    s@,
                    max_width as int,
                    style,
                    region,
                );
            }
        }
        let area = self.area;
        if !(area.x <= x && (x as u64) < area.x as u64 + area.width as u64 && area.y <= y && (y as u64)
            < area.y as u64 + area.height as u64) {
            return ;
        }
        let ghost before = self.content@;
        let room = (area.x as usize + area.width as usize) - x as usize;
        let budget = if max_width < room {
            max_width
        } else {
            room
        };
        let len = self.content.len();
        proof {
            let r = (y - area.y) as int;
            let h = area.height as int;
            let w = area.width as int;
            assert(r * w + w <= w * h) by (nonlinear_arith)
                requires
                    0 <= r < h,
                    0 <= w,
            ;
            assert(r * w + w <= len);
            vstd::arithmetic::mul::lemma_mul_upper_bound(
                area.width as int,
                0xffff,
                area.height as int,
                0xffff,
            );
        }
        let at0 = ((y - area.y) as usize) * (area.width as usize) + (x - area.x) as usize;
        let cs = chars_of(s);
        let n = cs.len();
        let mut at = at0;
        let mut left = budget;
        let mut k: usize = 0;
        assert(s@.skip(0) =~= s@);
        while k < n
            invariant
                0 <= k <= n,
                n == cs@.len(),
                cs@ == s@,
                self.wf(),
                self.area == area,
                area == old(self).area,
                before == old(self).content@,
                at + left <= before.len(),
                len == before.len(),
                self.content@.len() == before.len(),
                written(before, at0 as int, s@, budget as int, style) == written(
                    self.content@,
                    at as int,
                    s@.skip(k as int),
                    left as int,
                    style,
                ),
            decreases n - k,
        {
            let ghost rest = s@.skip(k as int);
            assert(rest[0] == cs@[k as int]);
            assert(rest.drop_first() =~= s@.skip(k + 1));
            let c = cs[k];
            let w = match char_width(c) {
                Some(w) => w,
                None => 0,
            };
            if w == 0 {
                k = k + 1;
            } else if w > left {
                assert(s@.skip(n as int) =~= Seq::<char>::empty());
                k = n;
            } else {
                self.place(at, w, c, style);
                at = at + w;
                left = left - w;
                k = k + 1;
            }
        }
        assert(s@.skip(n as int) =~= Seq::<char>::empty());
    }

    /// Writes `line` in its own style from column `x` of row `y` on, over at
    /// most `max_width` columns.
    pub fn set_line(&mut self, x: u16, y: u16, line: &Line, max_width: u16)
        requires
            old(self).wf(),
        ensures
            final(self).wf(),
            final(self).area == old(self).area,
            final(self).content@ == string_written(
                old(self).content@,
                old(self).area,
                x as int,
                y as int,
                line.content@,
                max_width as int,
                line.style,
            ),
            forall|region: Rect|
                region.y <= y < region.y + region.height && region.x <= x && x + max_width
                    <= region.x + region.width ==> #[trigger] same_outside(
                    old(self).content@,
                    final(self).content@,
                    old(self).area,
                    region,
                ),
    {
        self.set_stringn(x, y, line.content.as_str(), max_width as usize, line.style);
    }
}

/// Writes `s` at column `x` of row `y`, cut to `max_width`, changing nothing
/// outside `region`.
pub(crate) fn put_within(buf: &mut Buffer, x: u16, y: u16, s: &str, max_width: u16, style: Style, region: Ghost<Rect>)
    requires
        old(buf).wf(),
        region@.y <= y < region@.y + region@.height,
        region@.x <= x,
        x + max_width <= region@.x + region@.width,
    ensures
        final(buf).wf(),
        final(buf).area == old(buf).area,
        same_outside(old(buf).content@, final(buf).content@, old(buf).area, region@),
        final(buf).content@ == string_written(
            old(buf).content@,
            old(buf).area,
            x as int,
            y as int,
            s@,
            max_width as int,
            style,
        ),
{
    buf.set_stringn(x, y, s, max_width as usize, style);
    assert(same_outside(old(buf).content@, buf.content@, buf.area, region@));
}

} // verus!
