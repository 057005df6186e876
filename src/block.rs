//! A frame drawn around a widget.
use crate::buffer::{put_within, same_outside, string_written, styled_region, Buffer, BufferCell};
use crate::layout::{spec_min, Rect};
use crate::style::{plain_style, Style};
use vstd::prelude::*;

verus! {

/// A frame: an optional border all around and an optional title on its top
/// row.
#[derive(Debug, Clone, PartialEq, Eq, Hash)]
pub struct Block {
    pub title: Option<String>,
    pub borders: bool,
    pub style: Style,
}

/// The area inside the frame: a border takes one cell on each side, and a
/// title without a border takes the top row.
pub open spec fn inner_spec(b: Block, area: Rect) -> Rect {
    let side: int = if b.borders {
        1
    } else {
        0
    };
    let top: int = if b.borders || b.title is Some {
        1
    } else {
        0
    };
    Rect {
        x: (area.x + spec_min(side, area.width as int)) as u16,
        y: (area.y + spec_min(top, area.height as int)) as u16,
        width: (area.width - spec_min(2 * side, area.width as int)) as u16,
        height: (area.height - spec_min(top + side, area.height as int)) as u16,
    }
}

/// `cells` with the top and bottom border drawn over the first `k` columns
/// of `area`.
pub open spec fn hlines_drawn(cells: Seq<BufferCell>, buf_area: Rect, area: Rect, style: Style, k: int) -> Seq<
    BufferCell,
>
    decreases k,
{
    if k <= 0 {
        cells
    } else {
        let x = area.x + k - 1;
        let top = string_written(
            hlines_drawn(cells, buf_area, area, style, k - 1),
            buf_area,
            x,
            area.y as int,
            "\u{2500}"@,
            1,
            style,
        );
        string_written(top, buf_area, x, area.y + area.height - 1, "\u{2500}"@, 1, style)
    }
}

/// `cells` with the left and right border drawn over the first `k` rows of
/// `area`.
pub open spec fn vlines_drawn(cells: Seq<BufferCell>, buf_area: Rect, area: Rect, style: Style, k: int) -> Seq<
    BufferCell,
>
    decreases k,
{
    if k <= 0 {
        cells
    } else {
        let y = area.y + k - 1;
        let left = string_written(
            vlines_drawn(cells, buf_area, area, style, k - 1),
            buf_area,
            area.x as int,
            y,
            "\u{2502}"@,
            1,
            style,
        );
        string_written(left, buf_area, area.x + area.width - 1, y, "\u{2502}"@, 1, style)
    }
}

/// `cells` with the four corners of `area` drawn.
pub open spec fn corners_drawn(cells: Seq<BufferCell>, buf_area: Rect, area: Rect, style: Style) -> Seq<
    BufferCell,
> {
    let right = area.x + area.width - 1;
    let bottom = area.y + area.height - 1;
    let a = string_written(cells, buf_area, area.x as int, area.y as int, "\u{250c}"@, 1, style);
    let b = string_written(a, buf_area, right, area.y as int, "\u{2510}"@, 1, style);
    let c = string_written(b, buf_area, area.x as int, bottom, "\u{2514}"@, 1, style);
    string_written(c, buf_area, right, bottom, "\u{2518}"@, 1, style)
}

/// `cells` with the frame `b` drawn over `area`: its style over the area,
/// then the border lines, the corners, and the title on the top row (inside
/// the corners when there is a border).
pub open spec fn frame_drawn(cells: Seq<BufferCell>, buf_area: Rect, b: Block, area: Rect) -> Seq<BufferCell> {
    let styled = styled_region(cells, buf_area, area, b.style);
    if area.width == 0 || area.height == 0 {
        styled
    } else {
        let bordered = if b.borders {
            corners_drawn(
                vlines_drawn(
                    hlines_drawn(styled, buf_area, area, b.style, area.width as int),
                    buf_area,
                    area,
                    b.style,
                    area.height as int,
                ),
                buf_area,
                area,
                b.style,
            )
        } else {
            styled
        };
        match b.title {
            Some(t) => string_written(
                bordered,
                buf_area,
                if b.borders {
                    area.x + 1
                } else {
                    area.x as int
                },
                area.y as int,
                t@,
                if !b.borders {
                    area.width as int
                } else if area.width >= 2 {
                    area.width - 2
                } else {
                    0
                },
                b.style,
            ),
            None => bordered,
        }
    }
}

impl Block {
    /// A frame with neither border nor title.
    pub fn new() -> (r: Block)
        ensures
            r.title is None,
            !r.borders,
            r.style == plain_style(),
    {
        Block { title: None, borders: false, style: Style::new() }
    }

    /// A frame with a border all around.
    pub fn bordered() -> (r: Block)
        ensures
            r.title is None,
            r.borders,
            r.style == plain_style(),
    {
        Block { title: None, borders: true, style: Style::new() }
    }

    /// The frame with a title.
    pub fn title(self, title: &str) -> (r: Block)
        ensures
            r.title is Some,
            r.title->0@ == title@,
            r.borders == self.borders,
            r.style == self.style,
    {
        Block { title: Some(title.to_owned()), ..self }
    }

    /// The frame with its style replaced.
    pub fn style(self, style: Style) -> (r: Block)
        ensures
            r == (Block { style, ..self }),
    {
        Block { style, ..self }
    }

    /// The area inside the frame.
    pub fn inner(&self, area: Rect) -> (r: Rect)
        requires
            area.x + area.width <= u16::MAX,
            area.y + area.height <= u16::MAX,
        ensures
            r == inner_spec(*self, area),
            r.x + r.width <= area.x + area.width,
            r.y + r.height <= area.y + area.height,
    {
        let side: u16 = if self.borders {
            1
        } else {
            0
        };
        let top: u16 = if self.borders || self.title.is_some() {
            1
        } else {
            0
        };
        let dx = if side < area.width {
            side
        } else {
            area.width
        };
        let dy = if top < area.height {
            top
        } else {
            area.height
        };
        let dw = if 2 * side < area.width {
            2 * side
        } else {
            area.width
        };
        let dh = if top + side < area.height {
            top + side
        } else {
            area.height
        };
        Rect { x: area.x + dx, y: area.y + dy, width: area.width - dw, height: area.height - dh }
    }

    /// Draws the frame over `area`: its style over the whole area, the
    /// border, then the title.
    pub fn render(&self, area: Rect, buf: &mut Buffer)
        requires
            old(buf).wf(),
            area.x + area.width <= u16::MAX,
            area.y + area.height <= u16::MAX,
        ensures
            final(buf).wf(),
            final(buf).area == old(buf).area,
            same_outside(old(buf).content@, final(buf).content@, old(buf).area, area),
            final(buf).content@ == frame_drawn(old(buf).content@, old(buf).area, *self, area),
    {
        buf.set_style(area, self.style);
        let ghost styled = buf.content@;
        if area.width == 0 || area.height == 0 {
            return ;
        }
        let right = area.x + area.width - 1;
        let bottom = area.y + area.height - 1;
        if self.borders {
            let mut i: u16 = 0;
            while i < area.width
                invariant
                    buf.wf(),
                    buf.area == old(buf).area,
                    same_outside(old(buf).content@, buf.content@, buf.area, area),
                    area.x + area.width <= u16::MAX,
                    area.width > 0 && area.height > 0,
                    bottom == area.y + area.height - 1,
                    i <= area.width,
                    buf.content@ == hlines_drawn(styled, buf.area, area, self.style, i as int),
                decreases area.width - i,
            {
                put_within(buf, area.x + i, area.y, "\u{2500}", 1, self.style, Ghost(area));
                put_within(buf, area.x + i, bottom, "\u{2500}", 1, self.style, Ghost(area));
                i = i + 1;
            }
            let ghost hl = buf.content@;
            let mut j: u16 = 0;
            while j < area.height
                invariant
                    buf.wf(),
                    buf.area == old(buf).area,
                    same_outside(old(buf).content@, buf.content@, buf.area, area),
                    area.y + area.height <= u16::MAX,
                    area.width > 0 && area.height > 0,
                    right == area.x + area.width - 1,
                    j <= area.height,
                    buf.content@ == vlines_drawn(hl, buf.area, area, self.style, j as int),
                decreases area.height - j,
            {
                put_within(buf, area.x, area.y + j, "\u{2502}", 1, self.style, Ghost(area));
                put_within(buf, right, area.y + j, "\u{2502}", 1, self.style, Ghost(area));
                j = j + 1;
            }
            put_within(buf, area.x, area.y, "\u{250c}", 1, self.style, Ghost(area));
            put_within(buf, right, area.y, "\u{2510}", 1, self.style, Ghost(area));
            put_within(buf, area.x, bottom, "\u{2514}", 1, self.style, Ghost(area));
            put_within(buf, right, bottom, "\u{2518}", 1, self.style, Ghost(area));
        }
        match &self.title {
            Some(t) => {
                let (x, room) = if self.borders {
                    (area.x + 1, area.width.saturating_sub(2))
                } else {
                    (area.x, area.width)
                };
                put_within(buf, x, area.y, t.as_str(), room, self.style, Ghost(area));
            },
            None => {},
        }
    }
}

} // verus!
