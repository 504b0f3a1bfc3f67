//! The bounded textual preview of a sheet.

use crate::cell::{render_row, row_texts, Cell, CellModel};
use crate::config::PipelineError;
use crate::reader::{read_outcome, read_rows, Decoded};
use vstd::prelude::*;

verus! {

/// Mathematical value of a preview.
pub struct PreviewModel {
    pub headers: Seq<Seq<char>>,
    pub rows: Seq<Seq<Seq<char>>>,
}

/// The texts of the header row and of the first data rows of a sheet.
#[derive(Debug, Clone, PartialEq, Eq)]
pub struct PreviewData {
    pub headers: Vec<String>,
    pub rows: Vec<Vec<String>>,
}

impl DeepView for PreviewData {
    type V = PreviewModel;

    open spec fn deep_view(&self) -> PreviewModel {
        PreviewModel { headers: self.headers.deep_view(), rows: self.rows.deep_view() }
    }
}

/// Number of rows that follow the first one.
pub open spec fn data_row_count(rows: Seq<Seq<CellModel>>) -> nat {
    if rows.len() == 0 {
        0
    } else {
        (rows.len() - 1) as nat
    }
}

/// Number of data rows that a preview capped at `max_rows` holds.
pub open spec fn preview_len(rows: Seq<Seq<CellModel>>, max_rows: nat) -> nat {
    if max_rows <= data_row_count(rows) {
        max_rows
    } else {
        data_row_count(rows)
    }
}

/// The preview of a sheet: the texts of its first row as headers, then the
/// texts of at most `max_rows` of the rows after it, in sheet order.
pub open spec fn preview_of(rows: Seq<Seq<CellModel>>, max_rows: nat) -> PreviewModel {
    PreviewModel {
        headers: if rows.len() == 0 {
            Seq::empty()
        } else {
            row_texts(rows[0])
        },
        rows: Seq::new(preview_len(rows, max_rows), |i: int| row_texts(rows[i + 1])),
    }
}

/// A preview never holds more data rows than its cap, and holds exactly
/// the smaller of the cap and the number of data rows in the sheet.
pub proof fn preview_is_capped(rows: Seq<Seq<CellModel>>, max_rows: nat)
    ensures
        preview_of(rows, max_rows).rows.len() <= max_rows,
        preview_of(rows, max_rows).rows.len() == if max_rows <= data_row_count(rows) {
            max_rows
        } else {
            data_row_count(rows)
        },
{
}

/// Builds the preview of a sheet. The first row becomes the headers (none
/// for a sheet without rows); up to `max_rows` of the rows after it become
/// the data rows, and the rest is left out.
pub fn project(rows: &Vec<Vec<Cell>>, max_rows: usize) -> (preview: PreviewData)
    ensures
        preview.deep_view() == preview_of(rows.deep_view(), max_rows as nat),
        preview.rows.len() <= max_rows,
{
    if rows.len() == 0 {
        let preview = PreviewData { headers: Vec::new(), rows: Vec::new() };
        assert(preview.deep_view().headers =~= Seq::empty());
        assert(preview.deep_view().rows =~= preview_of(rows.deep_view(), max_rows as nat).rows);
        return preview;
    }
    let headers = render_row(&rows[0]);
    let count: usize = if max_rows <= rows.len() - 1 {
        max_rows
    } else {
        rows.len() - 1
    };
    let mut data: Vec<Vec<String>> = Vec::new();
    let mut i: usize = 0;
    while i < count
        invariant
            i <= count,
            count < rows.len(),
            data.len() == i,
            forall|k: int|
                0 <= k < i ==> (#[trigger] data[k]).deep_view() == row_texts(
                    rows[k + 1].deep_view(),
                ),
        decreases count - i,
    {
        data.push(render_row(&rows[i + 1]));
        i += 1;
    }
    let preview = PreviewData { headers, rows: data };
    assert(preview.deep_view().rows =~= preview_of(rows.deep_view(), max_rows as nat).rows);
    preview
}

/// Turns the outcome of reading a document into the outcome of a preview
/// request: the reader's error as it is, else the preview of the rows
/// read.
pub fn preview_from(read: Result<Vec<Vec<Cell>>, PipelineError>, max_rows: usize) -> (out: Result<
    PreviewData,
    PipelineError,
>)
    ensures
        match read {
            Ok(rows) => out.is_ok() && out.unwrap().deep_view() == preview_of(
                rows.deep_view(),
                max_rows as nat,
            ),
            Err(e) => out == Err::<PreviewData, PipelineError>(e),
        },
        out.is_ok() ==> out.unwrap().rows.len() <= max_rows,
{
    match read {
        Ok(rows) => Ok(project(&rows, max_rows)),
        Err(e) => Err(e),
    }
}

/// Previews the first sheet of a document, from the document's bytes and
/// what the decoder reported of them: the reader's error where reading
/// fails, `EmptyInput` for an empty buffer among them, else the preview of
/// the rows read.
pub fn extract_preview(data: &[u8], decoded: &Decoded, max_rows: usize) -> (out: Result<
    PreviewData,
    PipelineError,
>)
    ensures
        match read_outcome(data@, decoded.deep_view()) {
            Ok(cells) => out.is_ok() && out.unwrap().deep_view() == preview_of(
                cells,
                max_rows as nat,
            ),
            Err(e) => out == Err::<PreviewData, PipelineError>(e),
        },
        out.is_ok() ==> out.unwrap().rows.len() <= max_rows,
{
    preview_from(read_rows(data, decoded), max_rows)
}

} // verus!
