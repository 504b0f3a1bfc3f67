//! From what the decoder reports of a document to the rows of its first
//! sheet.
//!
//! Opening a container and decoding a sheet are the caller's: this module
//! takes what they gave and decides what it means.

use crate::cell::{Cell, CellModel};
use crate::config::PipelineError;
use calamine::{Data, Range};
use vstd::prelude::*;

verus! {

/// `calamine::Range`: the rectangle of cells that a sheet uses.
#[verifier::external_type_specification]
#[verifier::external_body]
#[verifier::reject_recursive_types(T)]
pub struct ExRange<T>(Range<T>);

/// `calamine::Data`: the value of one cell as calamine decodes it.
#[verifier::external_type_specification]
#[verifier::external_body]
pub struct ExData(Data);

/// The cells that a range holds, row by row from the top, each row from
/// the left.
pub uninterp spec fn range_cells(range: Range<Data>) -> Seq<Seq<CellModel>>;

/// `calamine::Range::height`: the number of rows that the range holds.
#[verifier::external_body]
fn range_height(range: &Range<Data>) -> (height: usize)
    ensures
        height == range_cells(*range).len(),
{
    range.height()
}

/// `calamine::Range::width`: the number of cells in each row of the
/// range; a range is a rectangle.
#[verifier::external_body]
fn range_width(range: &Range<Data>) -> (width: usize)
    ensures
        forall|r: int| 0 <= r < range_cells(*range).len() ==> (#[trigger] range_cells(*range)[r]).len() == width,
{
    range.width()
}

/// `calamine::Range::get` at a position relative to the range's corner,
/// as a cell: an integer, a boolean and a text as they are; a float, and
/// a date held as a serial number, as the decimal text that calamine
/// shows; an ISO date or duration and a cell error as text; no value as
/// the empty cell.
#[verifier::external_body]
fn range_cell(range: &Range<Data>, row: usize, col: usize) -> (cell: Cell)
    requires
        row < range_cells(*range).len(),
        col < range_cells(*range)[row as int].len(),
    ensures
        cell.deep_view() == range_cells(*range)[row as int][col as int],
{
    match range.get((row, col)) {
        Some(Data::Int(i)) => Cell::Integer(*i),
        Some(Data::Float(f)) => Cell::Float(f.to_string()),
        Some(Data::String(s)) => Cell::Text(s.clone()),
        Some(Data::Bool(b)) => Cell::Boolean(*b),
        Some(Data::DateTime(d)) => Cell::Float(d.to_string()),
        Some(Data::DateTimeIso(s)) => Cell::Text(s.clone()),
        Some(Data::DurationIso(s)) => Cell::Text(s.clone()),
        Some(Data::Error(e)) => Cell::Text(e.to_string()),
        Some(Data::Empty) | None => Cell::Empty,
    }
}

/// Copies the cells of a range into rows, top to bottom and left to
/// right. Every row has the same number of cells.
pub fn collect_rows(range: &Range<Data>) -> (rows: Vec<Vec<Cell>>)
    ensures
        rows.deep_view() == range_cells(*range),
        forall|r: int, s: int|
            0 <= r < rows.len() && 0 <= s < rows.len() ==> (#[trigger] rows[r]).len() == (
            #[trigger] rows[s]).len(),
{
    let height = range_height(range);
    let width = range_width(range);
    let mut rows: Vec<Vec<Cell>> = Vec::new();
    let mut r: usize = 0;
    while r < height
        invariant
            r <= height,
            height == range_cells(*range).len(),
            forall|k: int|
                0 <= k < range_cells(*range).len() ==> (#[trigger] range_cells(*range)[k]).len()
                    == width,
            rows.len() == r,
            forall|k: int|
                0 <= k < r ==> (#[trigger] rows[k]).deep_view() == range_cells(*range)[k]
                    && rows[k].len() == width,
        decreases height - r,
    {
        let mut row: Vec<Cell> = Vec::new();
        let mut c: usize = 0;
        while c < width
            invariant
                r < height,
                height == range_cells(*range).len(),
                range_cells(*range)[r as int].len() == width,
                c <= width,
                row.len() == c,
                forall|k: int|
                    0 <= k < c ==> (#[trigger] row[k]).deep_view() == range_cells(
                        *range,
                    )[r as int][k],
            decreases width - c,
        {
            row.push(range_cell(range, r, c));
            c += 1;
        }
        assert(row.deep_view() =~= range_cells(*range)[r as int]);
        rows.push(row);
        r += 1;
    }
    assert(rows.deep_view() =~= range_cells(*range));
    rows
}

/// The name of the first sheet of a workbook, or `NoSheetFound` for a
/// workbook without sheets.
pub fn first_sheet(names: &Vec<String>) -> (out: Result<String, PipelineError>)
    ensures
        names.len() == 0 ==> out == Err::<String, PipelineError>(PipelineError::NoSheetFound),
        names.len() > 0 ==> out.is_ok() && out.unwrap()@ == names[0]@,
{
    if names.len() == 0 {
        Err(PipelineError::NoSheetFound)
    } else {
        Ok(names[0].clone())
    }
}

/// Mathematical value of what the decoder reported.
pub enum DecodedModel {
    Unopened,
    Opened { names: Seq<Seq<char>>, first: Option<Seq<Seq<CellModel>>> },
}

/// What the decoder reported of a document.
#[derive(Debug, Clone)]
pub enum Decoded {
    /// The container did not open as a workbook.
    Unopened,
    /// The container opened. `names` are its sheets in workbook order;
    /// `first` is the range of the first of them, or nothing where there
    /// is no sheet or the first one could not be decoded.
    Opened { names: Vec<String>, first: Option<Range<Data>> },
}

impl DeepView for Decoded {
    type V = DecodedModel;

    open spec fn deep_view(&self) -> DecodedModel {
        match self {
            Decoded::Unopened => DecodedModel::Unopened,
            Decoded::Opened { names, first } => DecodedModel::Opened {
                names: names.deep_view(),
                first: match first {
                    Some(range) => Some(range_cells(*range)),
                    None => None,
                },
            },
        }
    }
}

/// Whether an error is one that reading a document can give.
pub open spec fn reader_error(e: PipelineError) -> bool {
    e == PipelineError::EmptyInput || e == PipelineError::CorruptDocument || e
        == PipelineError::NoSheetFound
}

/// Why a document is refused before it is opened: `EmptyInput` for a
/// buffer without bytes, and nothing for any other buffer.
pub open spec fn input_refusal_of(bytes: Seq<u8>) -> Option<PipelineError> {
    if bytes.len() == 0 {
        Some(PipelineError::EmptyInput)
    } else {
        None
    }
}

/// Tells whether a document is refused before it is opened, and why.
pub fn input_refusal(data: &[u8]) -> (out: Option<PipelineError>)
    ensures
        out == input_refusal_of(data@),
{
    if data.len() == 0 {
        Some(PipelineError::EmptyInput)
    } else {
        None
    }
}

/// What reading a document gives. No bytes give `EmptyInput`, whatever the
/// decoder reported; a container that did not open gives
/// `CorruptDocument`; a workbook without sheets gives `NoSheetFound`; a
/// first sheet that could not be decoded gives `CorruptDocument`;
/// anything else gives the cells of the first sheet.
pub open spec fn read_outcome(bytes: Seq<u8>, decoded: DecodedModel) -> Result<
    Seq<Seq<CellModel>>,
    PipelineError,
> {
    if bytes.len() == 0 {
        Err(PipelineError::EmptyInput)
    } else {
        match decoded {
            DecodedModel::Unopened => Err(PipelineError::CorruptDocument),
            DecodedModel::Opened { names, first } => if names.len() == 0 {
                Err(PipelineError::NoSheetFound)
            } else {
                match first {
                    Some(cells) => Ok(cells),
                    None => Err(PipelineError::CorruptDocument),
                }
            },
        }
    }
}

/// Reading fails only with `EmptyInput`, `CorruptDocument` or
/// `NoSheetFound`, and with `EmptyInput` exactly for a buffer without
/// bytes.
pub proof fn reading_fails_as_a_reader(bytes: Seq<u8>, decoded: DecodedModel)
    ensures
        match read_outcome(bytes, decoded) {
            Ok(_) => true,
            Err(e) => reader_error(e),
        },
        read_outcome(bytes, decoded) == Err::<Seq<Seq<CellModel>>, PipelineError>(
            PipelineError::EmptyInput,
        ) <==> bytes.len() == 0,
{
}

/// Gives the rows of the first sheet of a document, in sheet order, from
/// the document's bytes and what the decoder reported of them.
pub fn read_rows(data: &[u8], decoded: &Decoded) -> (out: Result<Vec<Vec<Cell>>, PipelineError>)
    ensures
        match read_outcome(data@, decoded.deep_view()) {
            Ok(cells) => out.is_ok() && out.unwrap().deep_view() == cells,
            Err(e) => out == Err::<Vec<Vec<Cell>>, PipelineError>(e),
        },
        out.is_ok() ==> forall|r: int, s: int|
            0 <= r < out.unwrap().len() && 0 <= s < out.unwrap().len() ==> (
            #[trigger] out.unwrap()[r]).len() == (#[trigger] out.unwrap()[s]).len(),
{
    if data.len() == 0 {
        return Err(PipelineError::EmptyInput);
    }
    match decoded {
        Decoded::Unopened => Err(PipelineError::CorruptDocument),
        Decoded::Opened { names, first } => {
            match first_sheet(names) {
                Err(e) => Err(e),
                Ok(_) => match first {
                    Some(range) => Ok(collect_rows(range)),
                    None => Err(PipelineError::CorruptDocument),
                },
            }
        },
    }
}

} // verus!
