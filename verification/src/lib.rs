//! Spreadsheet reading, previewing and write planning.
//!
//! A sheet is read into rows of typed cells. From those rows the crate
//! produces either a bounded textual preview or a complete list of the
//! writes that make up a restyled copy of the sheet.

pub mod cell;
pub mod config;
pub mod pipeline;
pub mod preview;
pub mod reader;

pub use cell::{is_decimal_text, Cell};
pub use config::{parse_color, PipelineConfig, PipelineError};
pub use pipeline::{
    plan, plan_from, process_excel, request_refusal, CellWrite, ColumnWidthAccumulator, WritePlan,
    WriteValue,
};
pub use preview::{extract_preview, preview_from, project, PreviewData};
pub use reader::{collect_rows, first_sheet, input_refusal, read_rows, Decoded};
