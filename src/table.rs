//! Cells, rows, the table widget and its navigation state.
use crate::block::Block;
use crate::measure::chars_of;
use crate::layout::{
    lemma_segments_fit, lemma_starts_ordered, segment_start, segment_width, spec_min, split_horizontal,
    Constraint, Rect, SegmentSize,
};
use crate::style::{plain_style, Style, Styled};
use crate::text::{joined_lines, Line, Text};
use crate::window::{clamp_index, row_bounds, row_total, span, window};
use itertools::Itertools;
use vstd::prelude::*;

verus! {

/// The content of one column of a row: text and a style over its area.
#[derive(Debug, Clone, PartialEq, Eq, Hash)]
pub struct Cell {
    pub content: Text,
    pub style: Style,
}

impl Cell {
    /// A cell that holds `content`, in no particular style.
    pub fn new(content: Text) -> (r: Cell)
        ensures
            r.content == content,
            r.style == plain_style(),
    {
        Cell { content, style: Style::new() }
    }

    /// The cell with its style replaced.
    pub fn style(self, style: Style) -> (r: Cell)
        ensures
            r.content == self.content,
            r.style == style,
    {
        Cell { style, ..self }
    }
}

/// A row of cells with a height of its own, a style over its band and a
/// margin of blank rows below it.
#[derive(Debug, Clone, PartialEq, Eq, Hash)]
pub struct Row {
    pub cells: Vec<Cell>,
    pub height: u16,
    pub style: Style,
    pub bottom_margin: u16,
}

impl Row {
    /// A row of height one, with no margin and no style, of the given cells.
    pub fn new<T: Into<Cell>>(cells: Vec<T>) -> (r: Row)
        ensures
            r.cells@.len() == cells@.len(),
            forall|i: int|
                0 <= i < cells@.len() ==> call_ensures(
                    T::into,
                    (cells@[i],),
                    #[trigger] r.cells@[i],
                ),
            r.height == 1,
            r.bottom_margin == 0,
            r.style == plain_style(),
    {
        let ghost items = cells@;
        let mut rest = cells;
        let ghost n = rest@.len();
        let mut out: Vec<Cell> = Vec::new();
        while rest.len() > 0
            invariant
                out@.len() + rest@.len() == n,
                n == items.len(),
                rest@ == items.subrange(out@.len() as int, n as int),
                forall|i: int| 0 <= i < out@.len() ==> call_ensures(T::into, (items[i],), #[trigger] out@[i]),
            decreases rest@.len(),
        {
            let ghost k = out@.len();
            let item = rest.remove(0);
            assert(item == items[k as int]);
            out.push(item.into());
            assert(rest@ =~= items.subrange(out@.len() as int, n as int));
        }
        Row { cells: out, height: 1, style: Style::new(), bottom_margin: 0 }
    }

    /// The height the row takes in the scroll: its own and its margin,
    /// saturating at the height limit.
    pub fn total_height(&self) -> (r: u16)
        ensures
            r == row_total(*self),
    {
        self.height.saturating_add(self.bottom_margin)
    }

    /// The row with its height replaced. Content with more lines than the
    /// height is cut.
    pub fn height(self, height: u16) -> (r: Row)
        ensures
            r == (Row { height, ..self }),
    {
        Row { height, ..self }
    }

    /// The row with its style replaced.
    pub fn style(self, style: Style) -> (r: Row)
        ensures
            r == (Row { style, ..self }),
    {
        Row { style, ..self }
    }

    /// The row with its bottom margin replaced.
    pub fn bottom_margin(self, margin: u16) -> (r: Row)
        ensures
            r == (Row { bottom_margin: margin, ..self }),
    {
        Row { bottom_margin: margin, ..self }
    }
}

impl From<&str> for Cell {
    /// A cell in no particular style whose text has a line for each piece of
    /// `content` between line feeds.
    fn from(content: &str) -> (r: Cell)
        ensures
            r.style == plain_style(),
            r.content.lines@.len() >= 1,
            joined_lines(r.content.lines@.map_values(|l: Line| l.content@)) == content@,
            forall|i: int|
                0 <= i < r.content.lines@.len() ==> r.content.lines@[i].style == plain_style()
                    && r.content.lines@[i].alignment is None,
    {
        Cell::new(Text::raw(content))
    }
}

impl vstd::std_specs::convert::FromSpecImpl<&str> for Cell {
    open spec fn obeys_from_spec() -> bool {
        false
    }

    open spec fn from_spec(v: &str) -> Cell {
        arbitrary()
    }
}

impl From<Line> for Cell {
    /// A cell in no particular style that holds the one line.
    fn from(line: Line) -> (r: Cell)
        ensures
            r.style == plain_style(),
            r.content.lines@ == seq![line],
    {
        let mut lines: Vec<Line> = Vec::new();
        lines.push(line);
        assert(lines@ =~= seq![line]);
        Cell::new(Text::from_lines(lines))
    }
}

impl vstd::std_specs::convert::FromSpecImpl<Line> for Cell {
    open spec fn obeys_from_spec() -> bool {
        false
    }

    open spec fn from_spec(v: Line) -> Cell {
        arbitrary()
    }
}

impl From<Text> for Cell {
    fn from(content: Text) -> Cell {
        Cell::new(content)
    }
}

impl vstd::std_specs::convert::FromSpecImpl<Text> for Cell {
    open spec fn obeys_from_spec() -> bool {
        true
    }

    open spec fn from_spec(v: Text) -> Cell {
        Cell { content: v, style: plain_style() }
    }
}

impl Styled for Cell {
    open spec fn style_view(&self) -> Style {
        self.style
    }

    fn get_style(&self) -> (r: Style) {
        self.style
    }

    fn set_style(self, style: Style) -> (r: Cell) {
        self.style(style)
    }
}

impl Styled for Row {
    open spec fn style_view(&self) -> Style {
        self.style
    }

    fn get_style(&self) -> (r: Style) {
        self.style
    }

    fn set_style(self, style: Style) -> (r: Row) {
        self.style(style)
    }
}

/// When the column in front of the rows that holds the selection symbol
/// takes up width.
#[derive(Debug, Clone, Copy, PartialEq, Eq, Structural, Hash)]
pub enum HighlightSpacing {
    /// Always, so that the columns never shift.
    Always,
    /// Only while a row is selected.
    WhenSelected,
    /// Never; the symbol is then never drawn.
    Never,
}

impl std::str::FromStr for HighlightSpacing {
    type Err = strum::ParseError;

    fn from_str(s: &str) -> Result<HighlightSpacing, strum::ParseError> {
        match HighlightSpacing::from_name(s) {
            Some(v) => Ok(v),
            None => Err(variant_not_found()),
        }
    }
}

/// Whether the selection column takes up width, given whether a row is
/// selected.
pub open spec fn should_add_spec(spacing: HighlightSpacing, has_selection: bool) -> bool {
    match spacing {
        HighlightSpacing::Always => true,
        HighlightSpacing::WhenSelected => has_selection,
        HighlightSpacing::Never => false,
    }
}

impl Default for HighlightSpacing {
    fn default() -> (r: HighlightSpacing)
        ensures
            r == HighlightSpacing::WhenSelected,
    {
        HighlightSpacing::WhenSelected
    }
}

impl HighlightSpacing {
    /// Whether the selection column takes up width, given whether a row is
    /// selected.
    pub fn should_add(&self, selection_state: bool) -> (r: bool)
        ensures
            r == should_add_spec(*self, selection_state),
    {
        match self {
            HighlightSpacing::Always => true,
            HighlightSpacing::WhenSelected => selection_state,
            HighlightSpacing::Never => false,
        }
    }

    /// The variant with the given name, if there is one; names are matched
    /// exactly.
    pub fn from_name(name: &str) -> (r: Option<HighlightSpacing>)
        ensures
            r == if name@ == "Always"@ {
                Some(HighlightSpacing::Always)
            } else if name@ == "WhenSelected"@ {
                Some(HighlightSpacing::WhenSelected)
            } else if name@ == "Never"@ {
                Some(HighlightSpacing::Never)
            } else {
                None
            },
    {
        if same_text(name, "Always") {
            Some(HighlightSpacing::Always)
        } else if same_text(name, "WhenSelected") {
            Some(HighlightSpacing::WhenSelected)
        } else if same_text(name, "Never") {
            Some(HighlightSpacing::Never)
        } else {
            None
        }
    }

    /// The name of the variant.
    pub fn to_string(&self) -> (r: String)
        ensures
            r@ == match *self {
                HighlightSpacing::Always => "Always"@,
                HighlightSpacing::WhenSelected => "WhenSelected"@,
                HighlightSpacing::Never => "Never"@,
            },
    {
        match self {
            HighlightSpacing::Always => "Always".to_owned(),
            HighlightSpacing::WhenSelected => "WhenSelected".to_owned(),
            HighlightSpacing::Never => "Never".to_owned(),
        }
    }
}

#[verifier::external_type_specification]
#[verifier::external_body]
pub struct ExParseError(strum::ParseError);

/// Relies on `strum::ParseError::VariantNotFound`: the error that strum gives
/// for a name that matches no variant.
#[verifier::external_body]
fn variant_not_found() -> (r: strum::ParseError) {
    strum::ParseError::VariantNotFound
}

/// Whether two strings hold the same characters.
fn same_text(a: &str, b: &str) -> (r: bool)
    ensures
        r == (a@ == b@),
{
    let x = chars_of(a);
    let y = chars_of(b);
    if x.len() != y.len() {
        return false;
    }
    let mut i: usize = 0;
    while i < x.len()
        invariant
            x@ == a@,
            y@ == b@,
            x@.len() == y@.len(),
            0 <= i <= x@.len(),
            forall|k: int| 0 <= k < i ==> x@[k] == y@[k],
        decreases x@.len() - i,
    {
        if x[i] != y[i] {
            return false;
        }
        i = i + 1;
    }
    assert(a@ =~= b@);
    true
}

/// Whether every percentage among the constraints is at most 100.
pub open spec fn percentages_valid(widths: Seq<Constraint>) -> bool {
    forall|i: int| 0 <= i < widths.len() ==> (#[trigger] widths[i] matches Constraint::Percentage(p) ==> p <= 100)
}

/// Asserts that every percentage among the constraints is at most 100: a
/// list with a percentage over 100 is refused, and callers that cannot show
/// otherwise test it first with `percentages_in_range`.
pub fn ensure_percentages_less_than_100(widths: &[Constraint])
    requires
        percentages_valid(widths@),
{
}

/// Whether every percentage among the constraints is at most 100.
pub fn percentages_in_range(widths: &[Constraint]) -> (r: bool)
    ensures
        r == percentages_valid(widths@),
{
    let mut i: usize = 0;
    while i < widths.len()
        invariant
            0 <= i <= widths@.len(),
            percentages_valid(widths@.subrange(0, i as int)),
        decreases widths@.len() - i,
    {
        if let Constraint::Percentage(p) = widths[i] {
            if p > 100 {
                assert(widths@[i as int] == widths@.subrange(0, i + 1)[i as int]);
                return false;
            }
        }
        assert(forall|j: int| 0 <= j <= i ==> widths@.subrange(0, i + 1)[j] == widths@[j]);
        assert(forall|j: int| 0 <= j < i ==> widths@.subrange(0, i as int)[j] == widths@[j]);
        i = i + 1;
    }
    assert(widths@.subrange(0, widths@.len() as int) =~= widths@);
    true
}

/// Something that lists column width constraints: an array, a slice or a
/// vector of them, or a reference to one.
pub trait ConstraintList {
    spec fn constraints(&self) -> Seq<Constraint>;

    /// The constraints, in order.
    fn to_constraints(self) -> (r: Vec<Constraint>)
        ensures
            r@ == self.constraints(),
    ;
}

/// The constraints of a slice, copied in order.
fn copy_constraints(items: &[Constraint]) -> (r: Vec<Constraint>)
    ensures
        r@ == items@,
{
    let mut out: Vec<Constraint> = Vec::new();
    let mut i: usize = 0;
    while i < items.len()
        invariant
            0 <= i <= items@.len(),
            out@ == items@.subrange(0, i as int),
        decreases items@.len() - i,
    {
        out.push(items[i]);
        assert(out@ =~= items@.subrange(0, i + 1));
        i = i + 1;
    }
    assert(items@.subrange(0, items@.len() as int) =~= items@);
    out
}

impl ConstraintList for Vec<Constraint> {
    open spec fn constraints(&self) -> Seq<Constraint> {
        self@
    }

    fn to_constraints(self) -> (r: Vec<Constraint>) {
        self
    }
}

impl ConstraintList for &Vec<Constraint> {
    open spec fn constraints(&self) -> Seq<Constraint> {
        (*self)@
    }

    fn to_constraints(self) -> (r: Vec<Constraint>) {
        copy_constraints(self.as_slice())
    }
}

impl ConstraintList for &[Constraint] {
    open spec fn constraints(&self) -> Seq<Constraint> {
        (*self)@
    }

    fn to_constraints(self) -> (r: Vec<Constraint>) {
        copy_constraints(self)
    }
}

impl<const N: usize> ConstraintList for [Constraint; N] {
    open spec fn constraints(&self) -> Seq<Constraint> {
        self@
    }

    fn to_constraints(self) -> (r: Vec<Constraint>) {
        copy_constraints(self.as_slice())
    }
}

impl<const N: usize> ConstraintList for &[Constraint; N] {
    open spec fn constraints(&self) -> Seq<Constraint> {
        (*self)@
    }

    fn to_constraints(self) -> (r: Vec<Constraint>) {
        copy_constraints(self.as_slice())
    }
}

/// `items` with `sep` between each two of them.
pub open spec fn interspersed_spec(items: Seq<Constraint>, sep: Constraint) -> Seq<Constraint> {
    Seq::new(
        if items.len() == 0 {
            0nat
        } else {
            (2 * items.len() - 1) as nat
        },
        |i: int|
            if i % 2 == 0 {
                items[i / 2]
            } else {
                sep
            },
    )
}

/// Relies on `itertools::Itertools::intersperse`: the items in order, with
/// `sep` between each two of them.
#[verifier::external_body]
fn interspersed(items: &Vec<Constraint>, sep: Constraint) -> (r: Vec<Constraint>)
    ensures
        r@ == interspersed_spec(items@, sep),
{
    Itertools::intersperse(items.iter().cloned(), sep).collect()
}

/// The constraints handed to the solver: a slot for the selection column,
/// then the data columns with a spacer between each two.
pub open spec fn solver_constraints(widths: Seq<Constraint>, spacing: u16, selection_width: u16) -> Seq<
    Constraint,
> {
    seq![Constraint::Length(selection_width)] + interspersed_spec(widths, Constraint::Length(spacing))
}

/// The `(x, width)` of each data column within `max_width`.
pub open spec fn column_spans(
    widths: Seq<Constraint>,
    spacing: u16,
    policy: SegmentSize,
    max_width: u16,
    selection_width: u16,
) -> Seq<(u16, u16)> {
    let cs = solver_constraints(widths, spacing, selection_width);
    Seq::new(
        widths.len(),
        |i: int|
            (
                segment_start(cs, max_width as int, policy, 2 * i + 1) as u16,
                segment_width(cs, max_width as int, policy, 2 * i + 1) as u16,
            ),
    )
}

/// A widget that shows rows of cells in columns, with an optional header
/// row and a highlighted selected row.
#[derive(Debug, Clone, PartialEq, Eq, Hash)]
pub struct Table {
    /// A frame drawn around the table.
    pub block: Option<Block>,
    /// The style of the whole area.
    pub style: Style,
    /// Width constraints, one per column.
    pub widths: Vec<Constraint>,
    /// Blank columns between each two columns.
    pub column_spacing: u16,
    /// The style laid over the selected row.
    pub highlight_style: Style,
    /// The symbol drawn in front of the selected row.
    pub highlight_symbol: Option<String>,
    /// A row drawn above the others, which does not scroll.
    pub header: Option<Row>,
    /// The rows.
    pub rows: Vec<Row>,
    /// When the selection column takes up width.
    pub highlight_spacing: HighlightSpacing,
    /// Who gets the width left over once the constraints are met.
    pub segment_size: SegmentSize,
}

impl Table {
    /// A table of `rows` whose columns follow `widths`, with one blank column
    /// between columns and nothing else set. A percentage over 100 is
    /// refused.
    pub fn new<C: ConstraintList>(rows: Vec<Row>, widths: C) -> (r: Table)
        requires
            percentages_valid(widths.constraints()),
        ensures
            r.rows@ == rows@,
            r.widths@ == widths.constraints(),
            r.block is None,
            r.style == plain_style(),
            r.column_spacing == 1,
            r.highlight_style == plain_style(),
            r.highlight_symbol is None,
            r.header is None,
            r.highlight_spacing == HighlightSpacing::WhenSelected,
            r.segment_size == SegmentSize::Unused,
    {
        let widths = widths.to_constraints();
        ensure_percentages_less_than_100(widths.as_slice());
        Table {
            block: None,
            style: Style::new(),
            widths,
            column_spacing: 1,
            highlight_style: Style::new(),
            highlight_symbol: None,
            header: None,
            rows,
            highlight_spacing: HighlightSpacing::WhenSelected,
            segment_size: SegmentSize::Unused,
        }
    }

    /// The table with a frame around it.
    pub fn block(self, block: Block) -> (r: Table)
        ensures
            r == (Table { block: Some(block), ..self }),
    {
        Table { block: Some(block), ..self }
    }

    /// The table with a header row.
    pub fn header(self, header: Row) -> (r: Table)
        ensures
            r == (Table { header: Some(header), ..self }),
    {
        Table { header: Some(header), ..self }
    }

    /// The table with its column constraints replaced. A percentage over 100
    /// is refused.
    pub fn widths<C: ConstraintList>(self, widths: C) -> (r: Table)
        requires
            percentages_valid(widths.constraints()),
        ensures
            r.widths@ == widths.constraints(),
            r == (Table { widths: r.widths, ..self }),
    {
        let widths = widths.to_constraints();
        ensure_percentages_less_than_100(widths.as_slice());
        Table { widths, ..self }
    }

    /// The table with its style replaced.
    pub fn style(self, style: Style) -> (r: Table)
        ensures
            r == (Table { style, ..self }),
    {
        Table { style, ..self }
    }

    /// The table with a symbol in front of the selected row.
    pub fn highlight_symbol(self, highlight_symbol: &str) -> (r: Table)
        ensures
            r.highlight_symbol is Some,
            r.highlight_symbol->0@ == highlight_symbol@,
            r == (Table { highlight_symbol: r.highlight_symbol, ..self }),
    {
        Table { highlight_symbol: Some(highlight_symbol.to_owned()), ..self }
    }

    /// The table with the style of the selected row replaced.
    pub fn highlight_style(self, highlight_style: Style) -> (r: Table)
        ensures
            r == (Table { highlight_style, ..self }),
    {
        Table { highlight_style, ..self }
    }

    /// The table with a new rule for when the selection column takes width.
    pub fn highlight_spacing(self, value: HighlightSpacing) -> (r: Table)
        ensures
            r == (Table { highlight_spacing: value, ..self }),
    {
        Table { highlight_spacing: value, ..self }
    }

    /// The table with the blank columns between columns replaced.
    pub fn column_spacing(self, spacing: u16) -> (r: Table)
        ensures
            r == (Table { column_spacing: spacing, ..self }),
    {
        Table { column_spacing: spacing, ..self }
    }

    /// The table with a new rule for the width left over.
    pub fn segment_size(self, segment_size: SegmentSize) -> (r: Table)
        ensures
            r == (Table { segment_size, ..self }),
    {
        Table { segment_size, ..self }
    }

    /// The `(x, width)` of each column within `max_width`, after a selection
    /// column of `selection_width`. Columns follow one another from left to
    /// right without overlap, all of them within `max_width` and after the
    /// selection column.
    pub fn get_columns_widths(&self, max_width: u16, selection_width: u16) -> (r: Vec<(u16, u16)>)
        ensures
            r@ == column_spans(
                self.widths@,
                self.column_spacing,
                self.segment_size,
                max_width,
                selection_width,
            ),
            forall|i: int| 0 <= i < r@.len() ==> r@[i].0 + r@[i].1 <= max_width,
            forall|i: int, j: int| 0 <= i < j < r@.len() ==> r@[i].0 + r@[i].1 <= r@[j].0,
            forall|i: int| 0 <= i < r@.len() ==> r@[i].0 >= spec_min(selection_width as int, max_width as int),
    {
        let ghost ws = self.widths@;
        let ghost total = max_width as int;
        let ghost policy = self.segment_size;
        let mut constraints: Vec<Constraint> = Vec::new();
        constraints.push(Constraint::Length(selection_width));
        let mut between = interspersed(&self.widths, Constraint::Length(self.column_spacing));
        constraints.append(&mut between);
        let ghost cs = constraints@;
        assert(cs =~= solver_constraints(ws, self.column_spacing, selection_width));
        let segments = split_horizontal(Rect::new(0, 0, max_width, 1), &constraints, self.segment_size);
        proof {
            lemma_segments_fit(cs, total, policy);
        }
        let n = self.widths.len();
        let m = constraints.len();
        let mut out: Vec<(u16, u16)> = Vec::new();
        let mut i: usize = 0;
        while i < n
            invariant
                0 <= i <= n,
                n == ws.len(),
                ws == self.widths@,
                total == max_width,
                policy == self.segment_size,
                cs == solver_constraints(ws, self.column_spacing, selection_width),
                cs.len() == if n == 0 { 1 } else { 2 * n },
                m == cs.len(),
                segments@ == crate::layout::split_spec(Rect { x: 0, y: 0, width: max_width, height: 1 }, cs, policy),
                out@ == column_spans(ws, self.column_spacing, policy, max_width, selection_width).subrange(0, i as int),
            decreases n - i,
        {
            let seg = segments[2 * i + 1];
            out.push((seg.x, seg.width));
            assert(out@ =~= column_spans(ws, self.column_spacing, policy, max_width, selection_width).subrange(0, i + 1));
            i = i + 1;
        }
        proof {
            let spans = column_spans(ws, self.column_spacing, policy, max_width, selection_width);
            assert(out@ =~= spans);
            assert forall|i: int, j: int| 0 <= i < j < n implies spans[i].0 + spans[i].1 <= spans[j].0 by {
                lemma_starts_ordered(cs, total, policy, 2 * i + 2, 2 * j + 1);
            }
            assert forall|i: int| 0 <= i < n implies spans[i].0 >= spec_min(selection_width as int, total) by {
                lemma_starts_ordered(cs, total, policy, 1, 2 * i + 1);
                assert(segment_start(cs, total, policy, 1) == segment_width(cs, total, policy, 0));
            }
        }
        out
    }

    /// The visible window `(start, end)` over the rows for a height of
    /// `max_height`, starting from `offset` and holding `selected` where
    /// there is one. Indexes past the last row are cut to it.
    pub fn get_row_bounds(&self, selected: Option<usize>, offset: usize, max_height: u16) -> (r: (
        usize,
        usize,
    ))
        requires
            self.rows@.len() > 0,
        ensures
            (r.0 as int, r.1 as int) == window(self.rows@, selected, offset as int, max_height as int),
            r.0 <= r.1 <= self.rows@.len(),
            selected is Some && row_total(self.rows@[clamp_index(self.rows@, selected->0 as int)])
                <= max_height ==> r.0 <= clamp_index(self.rows@, selected->0 as int) < r.1,
            offset == 0 && span(self.rows@, 0, self.rows@.len() as int) <= max_height ==> r.0 == 0
                && r.1 == self.rows@.len(),
    {
        row_bounds(&self.rows, selected, offset, max_height)
    }
}

/// Column allocation depends on nothing but the column constraints, the
/// spacing, the leftover policy and the two widths: tables that agree on
/// these get the same spans, and so does the same table asked twice.
pub proof fn lemma_column_allocation_deterministic(
    a: Table,
    b: Table,
    max_width: u16,
    selection_width: u16,
)
    requires
        a.widths@ == b.widths@,
        a.column_spacing == b.column_spacing,
        a.segment_size == b.segment_size,
    ensures
        column_spans(a.widths@, a.column_spacing, a.segment_size, max_width, selection_width)
            == column_spans(b.widths@, b.column_spacing, b.segment_size, max_width, selection_width),
{
}

impl Styled for Table {
    open spec fn style_view(&self) -> Style {
        self.style
    }

    fn get_style(&self) -> (r: Style) {
        self.style
    }

    fn set_style(self, style: Style) -> (r: Table) {
        self.style(style)
    }
}

/// Which row is selected and from which row on the table is shown.
#[derive(Debug, Clone, Copy, PartialEq, Eq, Structural, Hash)]
pub struct TableState {
    pub offset: usize,
    pub selected: Option<usize>,
}

impl Default for TableState {
    fn default() -> (r: TableState)
        ensures
            r == (TableState { offset: 0, selected: None }),
    {
        TableState { offset: 0, selected: None }
    }
}

impl TableState {
    /// The row from which the table is shown.
    pub fn offset(&self) -> (r: usize)
        ensures
            r == self.offset,
    {
        self.offset
    }

    /// The offset, to change in place.
    pub fn offset_mut(&mut self) -> (r: &mut usize)
        ensures
            *r == old(self).offset,
            *final(self) == (TableState { offset: *final(r), ..*old(self) }),
    {
        &mut self.offset
    }

    /// The state with its selection replaced.
    pub fn with_selected(self, selected: Option<usize>) -> (r: TableState)
        ensures
            r == (TableState { selected, ..self }),
    {
        TableState { selected, ..self }
    }

    /// The state with its offset replaced.
    pub fn with_offset(self, offset: usize) -> (r: TableState)
        ensures
            r == (TableState { offset, ..self }),
    {
        TableState { offset, ..self }
    }

    /// The selected row, if any.
    pub fn selected(&self) -> (r: Option<usize>)
        ensures
            r == self.selected,
    {
        self.selected
    }

    /// Selects a row, or clears the selection; clearing it also scrolls back
    /// to the first row.
    pub fn select(&mut self, index: Option<usize>)
        ensures
            final(self).selected == index,
            final(self).offset == if index is None {
                0
            } else {
                old(self).offset
            },
    {
        self.selected = index;
        if index.is_none() {
            self.offset = 0;
        }
    }
}

} // verus!
