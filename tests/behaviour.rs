use tabular::block::Block;
use tabular::buffer::Buffer;
use tabular::layout::Constraint::{Length, Max, Min, Percentage, Ratio};
use tabular::layout::{split_horizontal, Rect, SegmentSize};
use tabular::style::{Color, Style};
use tabular::table::{
    ensure_percentages_less_than_100, percentages_in_range, HighlightSpacing, Row, Table, TableState,
};
use tabular::text::{Line, Text};
use tabular::widget::{render_cell, StatefulWidget};
use tabular::table::Cell;

fn rows_of_heights(heights: &[u16]) -> Vec<Row> {
    heights
        .iter()
        .map(|h| Row::new(vec![Cell::from("x")]).height(*h))
        .collect()
}

fn line_of(buf: &Buffer, y: u16) -> String {
    let w = buf.area.width as usize;
    let start = (y - buf.area.y) as usize * w;
    buf.content[start..start + w].iter().map(|c| c.symbol).collect()
}

#[test]
fn window_scrolls_to_selection_at_the_end() {
    let table = Table::new(rows_of_heights(&[1, 1, 1, 1, 1]), [Length(1)]);
    assert_eq!(table.get_row_bounds(Some(4), 0, 3), (2, 5));
}

#[test]
fn window_scrolls_back_to_selection_before_offset() {
    let table = Table::new(rows_of_heights(&[1, 1, 1, 1, 1]), [Length(1)]);
    assert_eq!(table.get_row_bounds(Some(0), 3, 3), (0, 3));
    assert_eq!(table.get_row_bounds(Some(1), 4, 2), (1, 3));
}

#[test]
fn window_holds_selection_for_tall_rows() {
    let table = Table::new(rows_of_heights(&[2, 3, 1, 2, 4, 1]), [Length(1)]);
    for s in 0..6usize {
        let (start, end) = table.get_row_bounds(Some(s), 0, 4);
        assert!(start <= s && s < end, "selected {s}: ({start}, {end})");
    }
}

#[test]
fn window_shows_all_rows_when_they_fit() {
    let table = Table::new(rows_of_heights(&[1, 2, 1]), [Length(1)]);
    assert_eq!(table.get_row_bounds(Some(2), 0, 10), (0, 3));
    assert_eq!(table.get_row_bounds(None, 0, 4), (0, 3));
}

#[test]
fn window_clamps_offset_and_selection() {
    let table = Table::new(rows_of_heights(&[1, 1, 1]), [Length(1)]);
    assert_eq!(table.get_row_bounds(None, 10, 5), (2, 3));
    assert_eq!(table.get_row_bounds(Some(99), 0, 2), (1, 3));
}

#[test]
fn window_lets_trailing_margin_overflow() {
    let rows = vec![
        Row::new(vec![Cell::from("a")]).height(2).bottom_margin(5),
        Row::new(vec![Cell::from("b")]),
    ];
    let table = Table::new(rows, [Length(1)]);
    assert_eq!(table.get_row_bounds(None, 0, 2), (0, 1));
    let rows = vec![
        Row::new(vec![Cell::from("a")]).bottom_margin(1),
        Row::new(vec![Cell::from("b")]),
    ];
    let table = Table::new(rows, [Length(1)]);
    assert_eq!(table.get_row_bounds(None, 0, 2), (0, 1));
    assert_eq!(table.get_row_bounds(None, 0, 3), (0, 2));
}

#[test]
fn window_without_selection_keeps_offset() {
    let table = Table::new(rows_of_heights(&[1, 1, 1, 1]), [Length(1)]);
    assert_eq!(table.get_row_bounds(None, 2, 10), (2, 4));
}

#[test]
fn row_total_height_saturates() {
    let row = Row::new(vec![Cell::from("a")]).height(u16::MAX).bottom_margin(3);
    assert_eq!(row.total_height(), u16::MAX);
    let row = Row::new(vec![Cell::from("a")]).height(2).bottom_margin(3);
    assert_eq!(row.total_height(), 5);
}

#[test]
fn clearing_selection_resets_offset() {
    let mut state = TableState::default().with_offset(7).with_selected(Some(9));
    state.select(Some(3));
    assert_eq!(state.offset(), 7);
    assert_eq!(state.selected(), Some(3));
    state.select(None);
    assert_eq!(state.offset(), 0);
    assert_eq!(state.selected(), None);
}

#[test]
fn offset_can_be_changed_in_place() {
    let mut state = TableState::default();
    *state.offset_mut() = 4;
    assert_eq!(state.offset(), 4);
}

#[test]
fn columns_without_marker() {
    let table = Table::new(vec![], [Length(4), Length(4)]);
    assert_eq!(table.get_columns_widths(20, 0), vec![(0, 4), (5, 4)]);
}

#[test]
fn columns_with_marker() {
    let table = Table::new(vec![], [Length(4), Length(4)]);
    assert_eq!(table.get_columns_widths(20, 3), vec![(3, 4), (8, 4)]);
}

#[test]
fn column_allocation_is_repeatable() {
    let table = Table::new(vec![], [Percentage(30), Min(3), Ratio(1, 4)]).column_spacing(2);
    let first = table.get_columns_widths(33, 2);
    let second = table.get_columns_widths(33, 2);
    assert_eq!(first, second);
}

#[test]
fn column_spans_are_disjoint_and_inside() {
    let table = Table::new(vec![], [Min(5), Percentage(50), Length(9), Ratio(2, 3)]);
    for width in [0u16, 3, 10, 17, 40, 100] {
        for marker in [0u16, 2, 5] {
            let spans = table.get_columns_widths(width, marker);
            assert_eq!(spans.len(), 4);
            for (i, (x, w)) in spans.iter().enumerate() {
                assert!(x + w <= width);
                assert!(*x >= marker.min(width));
                if i + 1 < spans.len() {
                    assert!(x + w <= spans[i + 1].0);
                }
            }
        }
    }
}

#[test]
fn three_columns_get_spacers_between() {
    let table = Table::new(vec![], [Length(2), Length(3), Length(1)]).column_spacing(2);
    assert_eq!(table.get_columns_widths(30, 0), vec![(0, 2), (4, 3), (9, 1)]);
}

#[test]
fn even_share_respects_capped_segments() {
    let table = Table::new(vec![], [Length(5), Min(2), Ratio(1, 10)])
        .segment_size(SegmentSize::EvenDistribution);
    assert_eq!(table.get_columns_widths(27, 0), vec![(0, 5), (6, 10), (17, 10)]);
    let table = Table::new(vec![], [Length(30), Min(2)]).segment_size(SegmentSize::EvenDistribution);
    assert_eq!(table.get_columns_widths(20, 0), vec![(0, 20), (20, 0)]);
}

#[test]
fn split_serves_constraints_in_order() {
    let parts = split_horizontal(
        Rect::new(5, 1, 10, 2),
        &vec![Length(3), Percentage(50), Ratio(1, 3)],
        SegmentSize::Unused,
    );
    assert_eq!(
        parts,
        vec![Rect::new(5, 1, 3, 2), Rect::new(8, 1, 5, 2), Rect::new(13, 1, 2, 2)]
    );
}

#[test]
fn percentage_over_100_is_refused() {
    assert!(!percentages_in_range(&[Percentage(110)]));
    assert!(!percentages_in_range(&[Length(3), Percentage(101)]));
    assert!(percentages_in_range(&[Percentage(100), Length(200)]));
    assert!(percentages_in_range(&[]));
    let widths = [Percentage(100), Length(200)];
    if percentages_in_range(&widths) {
        ensure_percentages_less_than_100(&widths);
    }
}

#[test]
fn should_add_follows_policy() {
    assert!(HighlightSpacing::Always.should_add(false));
    assert!(HighlightSpacing::WhenSelected.should_add(true));
    assert!(!HighlightSpacing::WhenSelected.should_add(false));
    assert!(!HighlightSpacing::Never.should_add(true));
    assert_eq!(HighlightSpacing::default(), HighlightSpacing::WhenSelected);
}

#[test]
fn line_width_counts_wide_characters() {
    assert_eq!(Line::from("abc").width(), 3);
    assert_eq!(Line::from("\u{65e5}\u{672c}").width(), 4);
    assert_eq!(Line::from("").width(), 0);
}

#[test]
fn wide_character_takes_two_cells() {
    let mut buf = Buffer::empty(Rect::new(0, 0, 5, 1));
    buf.set_stringn(0, 0, "a\u{65e5}b", 10, Style::default());
    assert_eq!(line_of(&buf, 0), "a\u{65e5} b ");
    let mut buf = Buffer::empty(Rect::new(0, 0, 2, 1));
    buf.set_stringn(1, 0, "\u{65e5}", 10, Style::default());
    assert_eq!(line_of(&buf, 0), "  ");
}

#[test]
fn string_is_cut_to_width_and_buffer() {
    let mut buf = Buffer::empty(Rect::new(0, 0, 6, 2));
    buf.set_stringn(1, 1, "abcdef", 3, Style::default().fg(Color::Red));
    assert_eq!(line_of(&buf, 1), " abc  ");
    assert_eq!(buf.content[6 + 1].fg, Color::Red);
    assert_eq!(buf.content[6 + 4].fg, Color::Reset);
    buf.set_stringn(9, 0, "zz", 3, Style::default());
    assert_eq!(line_of(&buf, 0), "      ");
}

#[test]
fn cell_lines_are_cut_to_height() {
    let mut buf = Buffer::empty(Rect::new(0, 0, 4, 3));
    let cell = Cell::from(Text::from_lines(vec![
        Line::from("ab"),
        Line::from("cd"),
        Line::from("ef"),
    ]));
    render_cell(&mut buf, &cell, Rect::new(1, 0, 3, 2));
    assert_eq!(line_of(&buf, 0), " ab ");
    assert_eq!(line_of(&buf, 1), " cd ");
    assert_eq!(line_of(&buf, 2), "    ");
}

#[test]
fn header_and_highlight_are_drawn() {
    let rows = vec![
        Row::new(vec![Cell::from("r1")]),
        Row::new(vec![Cell::from("r2")]),
        Row::new(vec![Cell::from("r3")]),
    ];
    let table = Table::new(rows, [Length(4)])
        .header(Row::new(vec![Cell::from("head")]))
        .highlight_symbol(">>")
        .highlight_style(Style::default().bg(Color::Blue));
    let mut buf = Buffer::empty(Rect::new(0, 0, 8, 3));
    let mut state = TableState::default().with_selected(Some(2));
    StatefulWidget::render(table, Rect::new(0, 0, 8, 3), &mut buf, &mut state);
    assert_eq!(line_of(&buf, 0), "  head  ");
    assert_eq!(line_of(&buf, 1), "  r2    ");
    assert_eq!(line_of(&buf, 2), ">>r3    ");
    assert_eq!(state.offset(), 1);
    assert_eq!(buf.content[16].bg, Color::Blue);
    assert_eq!(buf.content[8].bg, Color::Reset);
}

#[test]
fn block_frames_the_table() {
    let table = Table::new(vec![Row::new(vec![Cell::from("ab")])], [Length(2)])
        .block(Block::bordered().title("T"));
    let mut buf = Buffer::empty(Rect::new(0, 0, 4, 3));
    tabular::widget::Widget::render(table, Rect::new(0, 0, 4, 3), &mut buf);
    assert_eq!(line_of(&buf, 0), "\u{250c}T\u{2500}\u{2510}");
    assert_eq!(line_of(&buf, 1), "\u{2502}ab\u{2502}");
    assert_eq!(line_of(&buf, 2), "\u{2514}\u{2500}\u{2500}\u{2518}");
    assert_eq!(Block::bordered().inner(Rect::new(0, 0, 4, 3)), Rect::new(1, 1, 2, 1));
    assert_eq!(Block::new().title("x").inner(Rect::new(0, 0, 4, 3)), Rect::new(0, 1, 4, 2));
}

#[test]
fn empty_area_draws_nothing() {
    let table = Table::new(vec![Row::new(vec![Cell::from("ab")])], [Length(2)]);
    let mut buf = Buffer::empty(Rect::new(0, 0, 4, 1));
    let mut state = TableState::default().with_offset(3);
    StatefulWidget::render(table, Rect::new(0, 0, 0, 1), &mut buf, &mut state);
    assert_eq!(buf, Buffer::empty(Rect::new(0, 0, 4, 1)));
    assert_eq!(state.offset(), 3);
}

#[test]
fn with_lines_is_as_wide_as_the_widest() {
    let buf = Buffer::with_lines(vec!["ab", "abcd", ""]);
    assert_eq!(buf.area, Rect::new(0, 0, 4, 3));
    assert_eq!(line_of(&buf, 1), "abcd");
}

#[test]
fn names_are_matched_exactly() {
    assert_eq!(HighlightSpacing::from_name("Never"), Some(HighlightSpacing::Never));
    assert_eq!(HighlightSpacing::from_name("never"), None);
    assert_eq!(HighlightSpacing::from_name("Alway"), None);
}

#[test]
fn text_is_split_at_line_feeds() {
    let text = Text::raw("Row\n41");
    assert_eq!(text.lines.len(), 2);
    assert_eq!(text.lines[0].content, "Row");
    assert_eq!(text.lines[1].content, "41");
    assert_eq!(Text::raw("").lines.len(), 1);
    assert_eq!(Text::raw("a\n").lines.len(), 2);
}

#[test]
fn tall_row_shows_every_line() {
    let rows = vec![Row::new(vec![Cell::from("Row\n41")]).height(2)];
    let table = Table::new(rows, [Length(3)]);
    let mut buf = Buffer::empty(Rect::new(0, 0, 3, 2));
    tabular::widget::Widget::render(table, Rect::new(0, 0, 3, 2), &mut buf);
    assert_eq!(buf, Buffer::with_lines(vec!["Row", "41 "]));
}

#[test]
fn symbol_only_with_selection_column() {
    let rows = vec![Row::new(vec![Cell::from("a")]), Row::new(vec![Cell::from("b")])];
    let table = Table::new(rows, [Length(2)])
        .highlight_symbol("*")
        .highlight_spacing(HighlightSpacing::Never);
    let mut buf = Buffer::empty(Rect::new(0, 0, 4, 2));
    let mut state = TableState::default().with_selected(Some(1));
    StatefulWidget::render(table, Rect::new(0, 0, 4, 2), &mut buf, &mut state);
    assert_eq!(line_of(&buf, 0), "a   ");
    assert_eq!(line_of(&buf, 1), "b   ");

    let rows = vec![Row::new(vec![Cell::from("a")]), Row::new(vec![Cell::from("b")])];
    let table = Table::new(rows, [Length(2)])
        .highlight_symbol("*")
        .highlight_spacing(HighlightSpacing::Always);
    let mut buf = Buffer::empty(Rect::new(0, 0, 4, 2));
    let mut state = TableState::default();
    StatefulWidget::render(table, Rect::new(0, 0, 4, 2), &mut buf, &mut state);
    assert_eq!(line_of(&buf, 0), " a  ");
    assert_eq!(line_of(&buf, 1), " b  ");
}

#[test]
fn header_alone_when_no_rows() {
    let table = Table::new(vec![], [Length(3)]).header(Row::new(vec![Cell::from("hd")]));
    let mut buf = Buffer::empty(Rect::new(0, 0, 4, 2));
    let mut state = TableState::default().with_offset(5);
    StatefulWidget::render(table, Rect::new(0, 0, 4, 2), &mut buf, &mut state);
    assert_eq!(line_of(&buf, 0), "hd  ");
    assert_eq!(line_of(&buf, 1), "    ");
    assert_eq!(state.offset(), 5);
}

#[test]
fn cells_and_columns_pair_up_to_the_shorter() {
    let rows = vec![Row::new(vec![Cell::from("a"), Cell::from("b"), Cell::from("c")])];
    let table = Table::new(rows, [Length(1), Length(1)]);
    let mut buf = Buffer::empty(Rect::new(0, 0, 6, 1));
    tabular::widget::Widget::render(table, Rect::new(0, 0, 6, 1), &mut buf);
    assert_eq!(line_of(&buf, 0), "a b   ");
}

#[test]
fn ratio_share_is_floored() {
    let table = Table::new(vec![], [Ratio(1, 3), Ratio(1, 3)]);
    assert_eq!(table.get_columns_widths(20, 0), vec![(0, 6), (7, 6)]);
    assert_eq!(table.get_columns_widths(20, 3), vec![(3, 6), (10, 6)]);
    assert_eq!(table.get_columns_widths(7, 0), vec![(0, 2), (3, 2)]);
}

#[test]
fn short_width_serves_in_order() {
    let table = Table::new(vec![], [Max(4), Max(4)]);
    assert_eq!(table.get_columns_widths(7, 3), vec![(3, 4), (7, 0)]);
    let table = Table::new(vec![], [Min(4), Min(4)]);
    assert_eq!(table.get_columns_widths(7, 0), vec![(0, 4), (5, 2)]);
    assert_eq!(table.get_columns_widths(7, 3), vec![(3, 4), (7, 0)]);
}
