//! The transform pipeline: from the rows of a sheet and a configuration to
//! the complete list of writes that make up the output sheet.
//!
//! The pipeline decides everything and writes nothing: a plan holds only
//! integers and text, so that whoever owns the output document can carry
//! it out write by write.

use crate::cell::{display_text, is_decimal, is_decimal_text, Cell, CellModel};
use crate::config::{color_value, is_color, ConfigModel, PipelineConfig, PipelineError};
use crate::reader::{read_outcome, read_rows, Decoded, DecodedModel};
use vstd::prelude::*;
use vstd::string::*;

verus! {

/// Number of rows that a sheet can hold.
pub const ROW_LIMIT: usize = 1_048_576;

/// Number of columns that a sheet can hold.
pub const COL_LIMIT: usize = 16_384;

/// Font colour of a styled header cell: white.
pub const HEADER_FONT_COLOR: u32 = 0xFF_FFFF;

/// Widest column that autofit sets, in tenths of a character.
pub const WIDTH_CEILING: u32 = 800;

/// Mathematical value of what is written into one cell.
pub enum WriteValueModel {
    Header(Seq<char>),
    Float(Seq<char>),
    Integer(int),
    Text(Seq<char>),
}

/// Mathematical value of one write.
pub struct WriteModel {
    pub row: int,
    pub col: int,
    pub value: WriteValueModel,
}

/// Mathematical value of a plan.
pub struct PlanModel {
    pub header_color: int,
    pub cells: Seq<WriteModel>,
    pub widths: Seq<int>,
    pub freeze_header: bool,
}

/// What is written into one cell.
#[derive(Debug, Clone, PartialEq, Eq)]
pub enum WriteValue {
    /// A text in the header format: the configured background, white font.
    Header(String),
    /// A number, given by its decimal text: an optional minus sign,
    /// digits, and optionally a point and more digits.
    Float(String),
    /// A number, given as an integer; the sheet stores it as a float.
    Integer(i64),
    /// A text.
    Text(String),
}

impl DeepView for WriteValue {
    type V = WriteValueModel;

    open spec fn deep_view(&self) -> WriteValueModel {
        match self {
            WriteValue::Header(t) => WriteValueModel::Header(t@),
            WriteValue::Float(t) => WriteValueModel::Float(t@),
            WriteValue::Integer(i) => WriteValueModel::Integer(*i as int),
            WriteValue::Text(t) => WriteValueModel::Text(t@),
        }
    }
}

/// One write: a position, counted from zero, and what goes there.
#[derive(Debug, Clone, PartialEq, Eq)]
pub struct CellWrite {
    pub row: u32,
    pub col: u16,
    pub value: WriteValue,
}

impl DeepView for CellWrite {
    type V = WriteModel;

    open spec fn deep_view(&self) -> WriteModel {
        WriteModel { row: self.row as int, col: self.col as int, value: self.value.deep_view() }
    }
}

/// Everything that makes up the output sheet.
#[derive(Debug, Clone, PartialEq, Eq)]
pub struct WritePlan {
    /// Background of the header format, as a 24-bit RGB value.
    pub header_color: u32,
    /// The cell writes, row by row and within a row column by column.
    pub cells: Vec<CellWrite>,
    /// The width of each column from the left, in tenths of a character;
    /// empty where no width is set.
    pub widths: Vec<u32>,
    /// Whether the first row stays in place when the sheet scrolls.
    pub freeze_header: bool,
}

impl DeepView for WritePlan {
    type V = PlanModel;

    open spec fn deep_view(&self) -> PlanModel {
        PlanModel {
            header_color: self.header_color as int,
            cells: self.cells.deep_view(),
            widths: Seq::new(self.widths@.len(), |c: int| self.widths@[c] as int),
            freeze_header: self.freeze_header,
        }
    }
}

/// What is written for a cell. A styled cell is written as a header with
/// its display text. Otherwise a float whose text is a decimal number
/// stays a number, an integer stays a number, a text stays a text, and
/// anything else is written as its display text.
pub open spec fn write_value(cell: CellModel, styled: bool) -> WriteValueModel {
    if styled {
        WriteValueModel::Header(display_text(cell))
    } else {
        match cell {
            CellModel::Float(t) => if is_decimal(t) {
                WriteValueModel::Float(t)
            } else {
                WriteValueModel::Text(t)
            },
            CellModel::Integer(i) => WriteValueModel::Integer(i),
            CellModel::Text(t) => WriteValueModel::Text(t),
            _ => WriteValueModel::Text(display_text(cell)),
        }
    }
}

/// The writes of one row, left to right.
pub open spec fn row_writes(row: Seq<CellModel>, r: int, styled: bool) -> Seq<WriteModel> {
    Seq::new(
        row.len(),
        |c: int| WriteModel { row: r, col: c, value: write_value(row[c], styled) },
    )
}

/// The writes of a sheet: those of each row, top to bottom. Only the first
/// row is styled, and only where header styling is on.
pub open spec fn sheet_writes(rows: Seq<Seq<CellModel>>, header_style: bool) -> Seq<WriteModel>
    decreases rows.len(),
{
    if rows.len() == 0 {
        Seq::empty()
    } else {
        sheet_writes(rows.drop_last(), header_style) + row_writes(
            rows.last(),
            rows.len() - 1,
            header_style && rows.len() == 1,
        )
    }
}

/// Number of columns of a sheet: the length of its longest row.
pub open spec fn column_count(rows: Seq<Seq<CellModel>>) -> nat
    decreases rows.len(),
{
    if rows.len() == 0 {
        0
    } else {
        let before = column_count(rows.drop_last());
        if rows.last().len() > before {
            rows.last().len()
        } else {
            before
        }
    }
}

/// Length of the longest display text in column `c` of a sheet; zero
/// where no row reaches that column.
pub open spec fn column_max(rows: Seq<Seq<CellModel>>, c: int) -> nat
    decreases rows.len(),
{
    if rows.len() == 0 {
        0
    } else {
        let before = column_max(rows.drop_last(), c);
        if 0 <= c < rows.last().len() && display_text(rows.last()[c]).len() > before {
            display_text(rows.last()[c]).len()
        } else {
            before
        }
    }
}

/// Width of a column whose longest text has `len` characters, in tenths of
/// a character: 1.2 characters for each character of text, and never more
/// than 80 characters.
pub open spec fn width_tenths(len: nat) -> nat {
    if 12 * len >= 800 {
        800
    } else {
        12 * len
    }
}

/// The width of every column of a sheet, from the left.
pub open spec fn column_widths(rows: Seq<Seq<CellModel>>) -> Seq<int> {
    Seq::new(column_count(rows), |c: int| width_tenths(column_max(rows, c)) as int)
}

/// Whether every cell of the rows has a place in a sheet.
pub open spec fn within_sheet(rows: Seq<Seq<CellModel>>) -> bool {
    &&& rows.len() <= ROW_LIMIT
    &&& forall|r: int| 0 <= r < rows.len() ==> (#[trigger] rows[r]).len() <= COL_LIMIT
}

/// The plan for a sheet under a configuration.
///
/// A header colour that is not `#` and six hexadecimal digits gives
/// `InvalidConfig`, whatever else is asked. Rows that do not fit in a sheet
/// give `WriteError`. Otherwise the plan holds the colour's value, the
/// writes of every cell, the column widths where autofit is on, and the
/// freeze switch.
pub open spec fn plan_of(rows: Seq<Seq<CellModel>>, config: ConfigModel) -> Result<
    PlanModel,
    PipelineError,
> {
    match color_value(config.header_color) {
        None => Err(PipelineError::InvalidConfig),
        Some(rgb) => if within_sheet(rows) {
            Ok(
                PlanModel {
                    header_color: rgb,
                    cells: sheet_writes(rows, config.header_style),
                    widths: if config.autofit {
                        column_widths(rows)
                    } else {
                        Seq::empty()
                    },
                    freeze_header: config.freeze_header,
                },
            )
        } else {
            Err(PipelineError::WriteError)
        },
    }
}

/// Whether `out` is the plan for a sheet under a configuration: the plan
/// itself where there is one, else the error.
pub open spec fn planned(
    out: Result<WritePlan, PipelineError>,
    rows: Seq<Seq<CellModel>>,
    config: ConfigModel,
) -> bool {
    match plan_of(rows, config) {
        Ok(m) => out.is_ok() && out.unwrap().deep_view() == m,
        Err(e) => out == Err::<WritePlan, PipelineError>(e),
    }
}

/// Planning is a function of its inputs: two results for the same rows
/// and the same configuration fail with the same error or hold the same
/// plan.
pub proof fn same_input_same_plan(
    first: Result<WritePlan, PipelineError>,
    second: Result<WritePlan, PipelineError>,
    rows: Seq<Seq<CellModel>>,
    config: ConfigModel,
)
    requires
        planned(first, rows, config),
        planned(second, rows, config),
    ensures
        first.is_ok() == second.is_ok(),
        first.is_ok() ==> first.unwrap().deep_view() == second.unwrap().deep_view(),
        first.is_err() ==> first.unwrap_err() == second.unwrap_err(),
{
}

/// The longest display text seen so far in each column, from the left.
pub struct ColumnWidthAccumulator {
    pub maxima: Vec<usize>,
}

/// The maxima after a text of `len` characters was seen in column `col`:
/// the columns reach at least to `col`, that column holds the larger of
/// its old maximum and `len`, and every other column is as before.
pub open spec fn observed(maxima: Seq<usize>, col: int, len: usize) -> Seq<usize> {
    Seq::new(
        if maxima.len() > col {
            maxima.len()
        } else {
            (col + 1) as nat
        },
        |c: int|
            {
                let before = if c < maxima.len() {
                    maxima[c]
                } else {
                    0
                };
                if c == col && len > before {
                    len
                } else {
                    before
                }
            },
    )
}

impl ColumnWidthAccumulator {
    /// An accumulator that has seen nothing.
    pub fn new() -> (acc: Self)
        ensures
            acc.maxima@ == Seq::<usize>::empty(),
    {
        ColumnWidthAccumulator { maxima: Vec::new() }
    }

    /// Records a text of `len` characters in column `col`. No maximum ever
    /// shrinks.
    pub fn observe(&mut self, col: usize, len: usize)
        ensures
            final(self).maxima@ == observed(old(self).maxima@, col as int, len),
            forall|c: int|
                0 <= c < old(self).maxima@.len() ==> final(self).maxima@[c] >= old(
                    self,
                ).maxima@[c],
    {
        while self.maxima.len() <= col
            invariant
                self.maxima@.len() >= old(self).maxima@.len(),
                self.maxima@.len() <= old(self).maxima@.len() || self.maxima@.len() <= col + 1,
                forall|c: int|
                    0 <= c < self.maxima@.len() ==> self.maxima@[c] == if c < old(
                        self,
                    ).maxima@.len() {
                        old(self).maxima@[c]
                    } else {
                        0usize
                    },
            decreases col + 1 - self.maxima@.len(),
        {
            self.maxima.push(0);
        }
        if len > self.maxima[col] {
            self.maxima.set(col, len);
        }
        assert(self.maxima@ =~= observed(old(self).maxima@, col as int, len));
    }

    /// The width for a column whose longest text has `len` characters, in
    /// tenths of a character. It is at most 80 characters and never
    /// shrinks as `len` grows.
    pub fn width_for(len: usize) -> (tenths: u32)
        ensures
            tenths == width_tenths(len as nat),
            tenths <= WIDTH_CEILING,
    {
        if len >= 67 {
            WIDTH_CEILING
        } else {
            (12 * len) as u32
        }
    }

    /// The width of every column seen, from the left, in tenths of a
    /// character.
    pub fn widths(&self) -> (out: Vec<u32>)
        ensures
            out@.len() == self.maxima@.len(),
            forall|c: int|
                0 <= c < out@.len() ==> out@[c] == width_tenths(
                    (#[trigger] self.maxima@[c]) as nat,
                ),
    {
        let mut out: Vec<u32> = Vec::new();
        let mut c: usize = 0;
        while c < self.maxima.len()
            invariant
                c <= self.maxima@.len(),
                out@.len() == c,
                forall|k: int|
                    0 <= k < c ==> out@[k] == width_tenths((#[trigger] self.maxima@[k]) as nat),
            decreases self.maxima@.len() - c,
        {
            out.push(Self::width_for(self.maxima[c]));
            c += 1;
        }
        out
    }
}

/// Every width is between 0 and 80 characters, and a longer text never
/// gets a narrower column.
pub proof fn width_is_bounded_and_monotone(shorter: nat, longer: nat)
    requires
        shorter <= longer,
    ensures
        0 <= width_tenths(shorter) <= 800,
        width_tenths(shorter) <= width_tenths(longer),
{
}

/// Every planned write belongs to one cell of the sheet and holds what is
/// written for that cell; it is a header write if and only if header
/// styling is on and the cell lies in the first row.
pub proof fn header_style_only_in_first_row(
    rows: Seq<Seq<CellModel>>,
    header_style: bool,
    k: int,
)
    requires
        0 <= k < sheet_writes(rows, header_style).len(),
    ensures
        ({
            let w = sheet_writes(rows, header_style)[k];
            &&& 0 <= w.row < rows.len()
            &&& 0 <= w.col < rows[w.row].len()
            &&& w.value == write_value(rows[w.row][w.col], header_style && w.row == 0)
            &&& (w.value is Header) == (header_style && w.row == 0)
        }),
    decreases rows.len(),
{
    if rows.len() > 0 {
        let before = sheet_writes(rows.drop_last(), header_style);
        if k < before.len() {
            header_style_only_in_first_row(rows.drop_last(), header_style, k);
        }
    }
}

/// Every number that a plan writes from text holds a decimal number.
pub proof fn float_writes_are_decimal(rows: Seq<Seq<CellModel>>, header_style: bool, k: int)
    requires
        0 <= k < sheet_writes(rows, header_style).len(),
    ensures
        match sheet_writes(rows, header_style)[k].value {
            WriteValueModel::Float(t) => is_decimal(t),
            _ => true,
        },
{
    header_style_only_in_first_row(rows, header_style, k);
}

/// A plan has exactly one write for every cell of the sheet.
pub proof fn one_write_per_cell(rows: Seq<Seq<CellModel>>, header_style: bool)
    ensures
        sheet_writes(rows, header_style).len() == cell_count(rows),
    decreases rows.len(),
{
    if rows.len() > 0 {
        one_write_per_cell(rows.drop_last(), header_style);
    }
}

/// The place of a write in a plan: the number of cells in the rows above
/// its cell, plus its column.
pub proof fn writes_are_in_sheet_order(rows: Seq<Seq<CellModel>>, header_style: bool, k: int)
    requires
        0 <= k < sheet_writes(rows, header_style).len(),
    ensures
        ({
            let w = sheet_writes(rows, header_style)[k];
            &&& 0 <= w.row < rows.len()
            &&& 0 <= w.col < rows[w.row].len()
            &&& k == cell_count(rows.take(w.row)) + w.col
        }),
    decreases rows.len(),
{
    let before = sheet_writes(rows.drop_last(), header_style);
    let w = sheet_writes(rows, header_style)[k];
    one_write_per_cell(rows.drop_last(), header_style);
    if k < before.len() {
        writes_are_in_sheet_order(rows.drop_last(), header_style, k);
        assert(rows.drop_last().take(w.row) =~= rows.take(w.row));
    } else {
        assert(rows.take(rows.len() - 1) =~= rows.drop_last());
    }
}

/// No cell is written twice: two different writes of a plan go to two
/// different cells.
pub proof fn writes_hit_distinct_cells(
    rows: Seq<Seq<CellModel>>,
    header_style: bool,
    j: int,
    k: int,
)
    requires
        0 <= j < sheet_writes(rows, header_style).len(),
        0 <= k < sheet_writes(rows, header_style).len(),
        j != k,
    ensures
        sheet_writes(rows, header_style)[j].row != sheet_writes(rows, header_style)[k].row
            || sheet_writes(rows, header_style)[j].col != sheet_writes(rows, header_style)[k].col,
{
    writes_are_in_sheet_order(rows, header_style, j);
    writes_are_in_sheet_order(rows, header_style, k);
}

/// Number of cells in a sheet.
pub open spec fn cell_count(rows: Seq<Seq<CellModel>>) -> nat
    decreases rows.len(),
{
    if rows.len() == 0 {
        0
    } else {
        cell_count(rows.drop_last()) + rows.last().len()
    }
}

proof fn lemma_column_max_beyond(rows: Seq<Seq<CellModel>>, c: int)
    requires
        c >= column_count(rows),
    ensures
        column_max(rows, c) == 0,
    decreases rows.len(),
{
    if rows.len() > 0 {
        lemma_column_max_beyond(rows.drop_last(), c);
    }
}

/// Whether every cell of the rows has a place in a sheet.
fn fits_sheet(rows: &Vec<Vec<Cell>>) -> (fits: bool)
    ensures
        fits == within_sheet(rows.deep_view()),
{
    if rows.len() > ROW_LIMIT {
        return false;
    }
    let mut r: usize = 0;
    while r < rows.len()
        invariant
            r <= rows.len(),
            rows.len() <= ROW_LIMIT,
            forall|k: int| 0 <= k < r ==> (#[trigger] rows.deep_view()[k]).len() <= COL_LIMIT,
        decreases rows.len() - r,
    {
        assert(rows.deep_view()[r as int] == rows[r as int].deep_view());
        if rows[r].len() > COL_LIMIT {
            return false;
        }
        r += 1;
    }
    true
}

/// Chooses what is written for a cell whose display text is `text`.
fn write_for(cell: &Cell, text: String, styled: bool) -> (value: WriteValue)
    requires
        text@ == display_text(cell.deep_view()),
    ensures
        value.deep_view() == write_value(cell.deep_view(), styled),
{
    if styled {
        WriteValue::Header(text)
    } else {
        match cell {
            Cell::Float(_) => if is_decimal_text(text.as_str()) {
                WriteValue::Float(text)
            } else {
                WriteValue::Text(text)
            },
            Cell::Integer(i) => WriteValue::Integer(*i),
            _ => WriteValue::Text(text),
        }
    }
}

/// Plans the output sheet once the header colour is known to be valid,
/// in one pass over the cells: each cell's text is recorded in the width
/// accumulator, then its write is added to the plan.
fn plan_validated(rows: &Vec<Vec<Cell>>, config: &PipelineConfig, rgb: u32) -> (out: Result<
    WritePlan,
    PipelineError,
>)
    requires
        color_value(config.header_color@) == Some(rgb as int),
    ensures
        planned(out, rows.deep_view(), config.deep_view()),
{
    if !fits_sheet(rows) {
        return Err(PipelineError::WriteError);
    }
    let ghost model = rows.deep_view();
    let header_style = config.header_style;
    let mut cells: Vec<CellWrite> = Vec::new();
    let mut acc = ColumnWidthAccumulator::new();
    let mut r: usize = 0;
    assert(sheet_writes(model.take(0), header_style) =~= Seq::empty());
    assert(cells.deep_view() =~= Seq::empty());
    while r < rows.len()
        invariant
            r <= rows.len(),
            model == rows.deep_view(),
            within_sheet(model),
            cells.deep_view() == sheet_writes(model.take(r as int), header_style),
            acc.maxima@.len() == column_count(model.take(r as int)),
            forall|k: int|
                0 <= k < acc.maxima@.len() ==> (#[trigger] acc.maxima@[k]) as nat == column_max(
                    model.take(r as int),
                    k,
                ),
        decreases rows.len() - r,
    {
        let row = &rows[r];
        let styled = header_style && r == 0;
        let ghost cells_before = cells.deep_view();
        let ghost seen = model.take(r as int);
        let ghost count_before = acc.maxima@.len();
        let mut c: usize = 0;
        assert(model[r as int] == row.deep_view());
        assert(row.deep_view().len() == row.len());
        assert(cells_before + row_writes(model[r as int], r as int, styled).take(0)
            =~= cells_before);
        while c < row.len()
            invariant
                c <= row.len(),
                row.len() <= COL_LIMIT,
                r < ROW_LIMIT,
                r < model.len(),
                row.deep_view() == model[r as int],
                row.deep_view().len() == row.len(),
                cells.deep_view() == cells_before + row_writes(
                    model[r as int],
                    r as int,
                    styled,
                ).take(c as int),
                count_before == column_count(seen),
                acc.maxima@.len() == if count_before > c {
                    count_before
                } else {
                    c as nat
                },
                forall|k: int|
                    0 <= k < acc.maxima@.len() ==> (#[trigger] acc.maxima@[k]) as nat == if k < c
                        && display_text(model[r as int][k]).len() > column_max(seen, k) {
                        display_text(model[r as int][k]).len()
                    } else {
                        column_max(seen, k)
                    },
            decreases row.len() - c,
        {
            let text = row[c].to_display_string();
            let len = text.as_str().unicode_len();
            let ghost maxima_before = acc.maxima@;
            let ghost row_cells_before = cells.deep_view();
            assert(row.deep_view()[c as int] == row[c as int].deep_view());
            acc.observe(c, len);
            let value = write_for(&row[c], text, styled);
            cells.push(CellWrite { row: r as u32, col: c as u16, value });
            proof {
                let all = row_writes(model[r as int], r as int, styled);
                assert(all.take(c as int + 1) =~= all.take(c as int).push(all[c as int]));
                assert(cells.deep_view() =~= row_cells_before.push(all[c as int]));
                assert forall|k: int| 0 <= k < acc.maxima@.len() implies (
                #[trigger] acc.maxima@[k]) as nat == if k < c + 1 && display_text(
                    model[r as int][k],
                ).len() > column_max(seen, k) {
                    display_text(model[r as int][k]).len()
                } else {
                    column_max(seen, k)
                } by {
                    if k >= count_before {
                        lemma_column_max_beyond(seen, k);
                    }
                    if k < maxima_before.len() {
                        assert(maxima_before[k] as nat == if k < c && display_text(
                            model[r as int][k],
                        ).len() > column_max(seen, k) {
                            display_text(model[r as int][k]).len()
                        } else {
                            column_max(seen, k)
                        });
                    }
                }
            }
            c += 1;
        }
        proof {
            let next = model.take(r as int + 1);
            assert(next.drop_last() =~= seen);
            assert(next.last() == model[r as int]);
            let all = row_writes(model[r as int], r as int, styled);
            assert(all.take(c as int) =~= all);
        }
        r += 1;
    }
    assert(model.take(r as int) =~= model);
    let widths = if config.autofit {
        acc.widths()
    } else {
        Vec::new()
    };
    let plan = WritePlan { header_color: rgb, cells, widths, freeze_header: config.freeze_header };
    proof {
        if config.autofit {
            assert(plan.widths@.len() == column_count(model));
            assert forall|k: int| 0 <= k < plan.widths@.len() implies plan.widths@[k] as int
                == column_widths(model)[k] by {
                assert(acc.maxima@[k] as nat == column_max(model, k));
            }
            assert(plan.deep_view().widths =~= column_widths(model));
        } else {
            assert(plan.deep_view().widths =~= Seq::<int>::empty());
        }
    }
    Ok(plan)
}

/// Plans the output sheet for the rows of a sheet.
///
/// The header colour is checked before any row is looked at; a colour that
/// is not `#` and six hexadecimal digits gives `InvalidConfig`, also where
/// header styling is off. Rows that do not fit in a sheet give
/// `WriteError`. Otherwise every cell is written once, row by row: a cell
/// of the first row as a header where header styling is on, any other cell
/// by its own type.
pub fn plan(rows: &Vec<Vec<Cell>>, config: &PipelineConfig) -> (out: Result<
    WritePlan,
    PipelineError,
>)
    ensures
        planned(out, rows.deep_view(), config.deep_view()),
{
    match config.validate() {
        Ok(rgb) => plan_validated(rows, config, rgb),
        Err(e) => Err(e),
    }
}

/// The plan for a document, given what reading it gave: an invalid
/// header colour comes first, then the reader's error as it is, then the
/// plan of the rows read.
pub open spec fn plan_outcome(
    read: Result<Seq<Seq<CellModel>>, PipelineError>,
    config: ConfigModel,
) -> Result<PlanModel, PipelineError> {
    if !is_color(config.header_color) {
        Err(PipelineError::InvalidConfig)
    } else {
        match read {
            Ok(rows) => plan_of(rows, config),
            Err(e) => Err(e),
        }
    }
}

/// Turns the outcome of reading a document into the plan of its output.
pub fn plan_from(read: Result<Vec<Vec<Cell>>, PipelineError>, config: &PipelineConfig) -> (out:
    Result<WritePlan, PipelineError>)
    ensures
        match plan_outcome(
            match read {
                Ok(rows) => Ok(rows.deep_view()),
                Err(e) => Err(e),
            },
            config.deep_view(),
        ) {
            Ok(m) => out.is_ok() && out.unwrap().deep_view() == m,
            Err(e) => out == Err::<WritePlan, PipelineError>(e),
        },
{
    let rgb = match config.validate() {
        Ok(rgb) => rgb,
        Err(e) => {
            return Err(e);
        },
    };
    match read {
        Ok(rows) => plan_validated(&rows, config, rgb),
        Err(e) => Err(e),
    }
}

/// Why a request is refused before the document is opened: `EmptyInput`
/// for a buffer without bytes, whatever the configuration holds; else
/// `InvalidConfig` for an invalid header colour; else nothing.
pub open spec fn request_refusal_of(bytes: Seq<u8>, config: ConfigModel) -> Option<
    PipelineError,
> {
    if bytes.len() == 0 {
        Some(PipelineError::EmptyInput)
    } else if !is_color(config.header_color) {
        Some(PipelineError::InvalidConfig)
    } else {
        None
    }
}

/// Tells whether a request is refused before the document is opened, and
/// why.
pub fn request_refusal(data: &[u8], config: &PipelineConfig) -> (out: Option<PipelineError>)
    ensures
        out == request_refusal_of(data@, config.deep_view()),
{
    if data.len() == 0 {
        return Some(PipelineError::EmptyInput);
    }
    match config.validate() {
        Ok(_) => None,
        Err(e) => Some(e),
    }
}

/// The plan for a document: the refusal where the request is refused
/// before the document is opened; else the reader's error; else the plan
/// of the first sheet.
pub open spec fn process_outcome(
    bytes: Seq<u8>,
    decoded: DecodedModel,
    config: ConfigModel,
) -> Result<PlanModel, PipelineError> {
    match request_refusal_of(bytes, config) {
        Some(e) => Err(e),
        None => match read_outcome(bytes, decoded) {
            Ok(rows) => plan_of(rows, config),
            Err(e) => Err(e),
        },
    }
}

/// Plans the output for a document, from the document's bytes, what the
/// decoder reported of them, and the configuration.
///
/// An empty buffer gives `EmptyInput`, whatever the configuration holds.
/// For any other buffer an invalid header colour gives `InvalidConfig`
/// before a row is looked at. After that the result is the reader's error
/// or the plan of the rows of the first sheet.
pub fn process_excel(data: &[u8], decoded: &Decoded, config: &PipelineConfig) -> (out: Result<
    WritePlan,
    PipelineError,
>)
    ensures
        match process_outcome(data@, decoded.deep_view(), config.deep_view()) {
            Ok(m) => out.is_ok() && out.unwrap().deep_view() == m,
            Err(e) => out == Err::<WritePlan, PipelineError>(e),
        },
{
    if data.len() == 0 {
        return Err(PipelineError::EmptyInput);
    }
    let rgb = match config.validate() {
        Ok(rgb) => rgb,
        Err(e) => {
            return Err(e);
        },
    };
    match read_rows(data, decoded) {
        Ok(rows) => plan_validated(&rows, config, rgb),
        Err(e) => Err(e),
    }
}

/// An empty buffer is refused as `EmptyInput` under every configuration,
/// and an invalid header colour as `InvalidConfig` for every other
/// buffer, whatever the switches say and whatever the document holds.
pub proof fn refusals_come_first(bytes: Seq<u8>, decoded: DecodedModel, config: ConfigModel)
    ensures
        bytes.len() == 0 ==> process_outcome(bytes, decoded, config) == Err::<
            PlanModel,
            PipelineError,
        >(PipelineError::EmptyInput),
        bytes.len() > 0 && !is_color(config.header_color) ==> process_outcome(
            bytes,
            decoded,
            config,
        ) == Err::<PlanModel, PipelineError>(PipelineError::InvalidConfig),
        forall|rows: Seq<Seq<CellModel>>|
            !is_color(config.header_color) ==> #[trigger] plan_of(rows, config) == Err::<
                PlanModel,
                PipelineError,
            >(PipelineError::InvalidConfig),
{
}

/// Two results for the same bytes, the same report of the decoder and the
/// same configuration fail with the same error or hold the same plan.
pub proof fn same_document_same_plan(
    first: Result<WritePlan, PipelineError>,
    second: Result<WritePlan, PipelineError>,
    bytes: Seq<u8>,
    decoded: DecodedModel,
    config: ConfigModel,
)
    requires
        match process_outcome(bytes, decoded, config) {
            Ok(m) => first.is_ok() && first.unwrap().deep_view() == m,
            Err(e) => first == Err::<WritePlan, PipelineError>(e),
        },
        match process_outcome(bytes, decoded, config) {
            Ok(m) => second.is_ok() && second.unwrap().deep_view() == m,
            Err(e) => second == Err::<WritePlan, PipelineError>(e),
        },
    ensures
        first.is_ok() == second.is_ok(),
        first.is_ok() ==> first.unwrap().deep_view() == second.unwrap().deep_view(),
        first.is_err() ==> first.unwrap_err() == second.unwrap_err(),
{
}

} // verus!
