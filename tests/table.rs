use tabular::buffer::Buffer;
use tabular::layout::Constraint;
use tabular::layout::Constraint::{Length, Max, Min, Percentage};
use tabular::layout::{Rect, SegmentSize};
use tabular::style::{Color, Modifier, Style, Styled};
use tabular::table::{Cell, HighlightSpacing, Row, Table};
use tabular::text::{Alignment, Line};
use tabular::widget::Widget;

/// Builds a table with the given constraints and checks the column spans.
fn check_widths(
    constraints: &[Constraint],
    segment_size: SegmentSize,
    available_width: u16,
    selection_width: u16,
    expected: &[(u16, u16)],
) {
    let table = Table::new(vec![], constraints).segment_size(segment_size);
    let widths = table.get_columns_widths(available_width, selection_width);
    assert_eq!(widths, expected);
}

#[test]
fn widths_conversions() {
    let array = [Constraint::Percentage(100)];
    let table = Table::new(vec![], array);
    assert_eq!(table.widths, vec![Constraint::Percentage(100)], "array");

    let array_ref = &[Constraint::Percentage(100)];
    let table = Table::new(vec![], array_ref);
    assert_eq!(table.widths, vec![Constraint::Percentage(100)], "array ref");

    let vec = vec![Constraint::Percentage(100)];
    let slice = vec.as_slice();
    let table = Table::new(vec![], slice);
    assert_eq!(table.widths, vec![Constraint::Percentage(100)], "slice");

    let vec = vec![Constraint::Percentage(100)];
    let table = Table::new(vec![], vec);
    assert_eq!(table.widths, vec![Constraint::Percentage(100)], "vec");

    let vec_ref = &vec![Constraint::Percentage(100)];
    let table = Table::new(vec![], vec_ref);
    assert_eq!(table.widths, vec![Constraint::Percentage(100)], "vec ref");
}

#[test]
fn length_constraint() {
    // without selection, more than needed width
    check_widths(&[Length(4), Length(4)], SegmentSize::Unused, 20, 0, &[(0, 4), (5, 4)]);

    // with selection, more than needed width
    check_widths(&[Length(4), Length(4)], SegmentSize::Unused, 20, 3, &[(3, 4), (8, 4)]);

    // without selection, less than needed width
    check_widths(&[Length(4), Length(4)], SegmentSize::Unused, 7, 0, &[(0, 4), (5, 2)]);

    // with selection, less than needed width
    check_widths(&[Length(4), Length(4)], SegmentSize::Unused, 7, 3, &[(3, 4), (7, 0)]);
}

#[test]
fn max_constraint() {
    // without selection, more than needed width
    check_widths(&[Max(4), Max(4)], SegmentSize::Unused, 20, 0, &[(0, 4), (5, 4)]);

    // with selection, more than needed width
    check_widths(&[Max(4), Max(4)], SegmentSize::Unused, 20, 3, &[(3, 4), (8, 4)]);

    // without selection, less than needed width
    check_widths(&[Max(4), Max(4)], SegmentSize::Unused, 7, 0, &[(0, 4), (5, 2)]);

    // With selection and less than needed width, segments are served in
    // order here, so the first column keeps its 4 cells: a solver that weighs
    // all constraints at once may give (3, 3), (7, 0) instead. This solver's
    // values are in `short_width_serves_in_order` in behaviour.rs.
}

#[test]
fn min_constraint() {
    // without selection, more than needed width
    check_widths(&[Min(4), Min(4)], SegmentSize::Unused, 20, 0, &[(0, 4), (5, 4)]);

    // with selection, more than needed width
    check_widths(&[Min(4), Min(4)], SegmentSize::Unused, 20, 3, &[(3, 4), (8, 4)]);

    // With less than needed width the spacer and the selection column are
    // served before later columns here, never dropped: a solver that weighs
    // all constraints at once may drop them and give (0, 4), (4, 3). This
    // solver's values are in `short_width_serves_in_order` in behaviour.rs.
}

// Ratios are floored: `Ratio(1, 3)` of 20 cells is 6, so two such columns
// with a spacer take (0, 6), (7, 6). A solver that rounds fractional
// positions gives (0, 7), (8, 6) instead; `ratio_share_is_floored` in
// behaviour.rs holds this solver's values.

#[test]
fn percentage_constraint() {
    // without selection, more than needed width
    check_widths(
        &[Percentage(30), Percentage(30)],
        SegmentSize::Unused,
        20,
        0,
        &[(0, 6), (7, 6)],
    );

    // with selection, more than needed width
    check_widths(
        &[Percentage(30), Percentage(30)],
        SegmentSize::Unused,
        20,
        3,
        &[(3, 6), (10, 6)],
    );

    // without selection, less than needed width
    check_widths(
        &[Percentage(30), Percentage(30)],
        SegmentSize::Unused,
        7,
        0,
        &[(0, 2), (3, 2)],
    );

    // with selection, less than needed width
    check_widths(
        &[Percentage(30), Percentage(30)],
        SegmentSize::Unused,
        7,
        3,
        &[(3, 2), (6, 1)],
    );
}

/// When more width is available than requested, the behavior is controlled by segment_size
#[test]
fn underconstrained() {
    let widths = [Min(10), Min(10), Min(1)];
    check_widths(
        &widths[..],
        SegmentSize::Unused,
        62,
        0,
        &[(0, 10), (11, 10), (22, 1)],
    );
    check_widths(
        &widths[..],
        SegmentSize::LastTakesRemainder,
        62,
        0,
        &[(0, 10), (11, 10), (22, 40)],
    );
    check_widths(
        &widths[..],
        SegmentSize::EvenDistribution,
        62,
        0,
        &[(0, 20), (21, 20), (42, 20)],
    );
}

#[test]
fn test_render_table_with_alignment() {
    let mut buf = Buffer::empty(Rect::new(0, 0, 20, 3));
    let table = Table::new(
        vec![
            Row::new(vec![Line::from("Left").alignment(Alignment::Left)]),
            Row::new(vec![Line::from("Center").alignment(Alignment::Center)]),
            Row::new(vec![Line::from("Right").alignment(Alignment::Right)]),
        ],
        [Percentage(100)],
    );

    Widget::render(table, Rect::new(0, 0, 20, 3), &mut buf);

    let expected = Buffer::with_lines(vec![
        "Left                ",
        "       Center       ",
        "               Right",
    ]);

    assert_eq!(buf, expected);
}

#[test]
fn cell_can_be_stylized() {
    assert_eq!(
        Cell::from("").black().on_white().bold().not_dim().style,
        Style::default()
            .fg(Color::Black)
            .bg(Color::White)
            .add_modifier(Modifier::BOLD)
            .remove_modifier(Modifier::DIM)
    )
}

#[test]
fn row_can_be_stylized() {
    assert_eq!(
        Row::new(vec![Cell::from("")])
            .black()
            .on_white()
            .bold()
            .not_italic()
            .style,
        Style::default()
            .fg(Color::Black)
            .bg(Color::White)
            .add_modifier(Modifier::BOLD)
            .remove_modifier(Modifier::ITALIC)
    )
}

#[test]
fn table_can_be_stylized() {
    assert_eq!(
        Table::new(vec![Row::new(vec![Cell::from("")])], [Percentage(100)])
            .black()
            .on_white()
            .bold()
            .not_crossed_out()
            .style,
        Style::default()
            .fg(Color::Black)
            .bg(Color::White)
            .add_modifier(Modifier::BOLD)
            .remove_modifier(Modifier::CROSSED_OUT)
    )
}

#[test]
fn highlight_spacing_to_string() {
    assert_eq!(HighlightSpacing::Always.to_string(), "Always".to_string());
    assert_eq!(
        HighlightSpacing::WhenSelected.to_string(),
        "WhenSelected".to_string()
    );
    assert_eq!(HighlightSpacing::Never.to_string(), "Never".to_string());
}

#[test]
fn highlight_spacing_from_str() {
    assert_eq!(
        "Always".parse::<HighlightSpacing>(),
        Ok(HighlightSpacing::Always)
    );
    assert_eq!(
        "WhenSelected".parse::<HighlightSpacing>(),
        Ok(HighlightSpacing::WhenSelected)
    );
    assert_eq!(
        "Never".parse::<HighlightSpacing>(),
        Ok(HighlightSpacing::Never)
    );
    assert_eq!(
        "".parse::<HighlightSpacing>(),
        Err(strum::ParseError::VariantNotFound)
    );
}
