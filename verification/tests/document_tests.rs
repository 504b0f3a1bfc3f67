use calamine::{CellErrorType, Data, ExcelDateTime, ExcelDateTimeType, Range, Reader, Xlsx};
use engine::{
    collect_rows, input_refusal, request_refusal, Cell, CellWrite, Decoded, PipelineConfig,
    PipelineError, WritePlan, WriteValue,
};
use rust_xlsxwriter::{Format, Workbook};
use std::io::Cursor;

fn decode(data: &[u8]) -> Decoded {
    let mut book: Xlsx<_> = match Xlsx::new(Cursor::new(data.to_vec())) {
        Ok(book) => book,
        Err(_) => return Decoded::Unopened,
    };
    let names = book.sheet_names();
    let first = match names.first() {
        Some(name) => book.worksheet_range(name).ok(),
        None => None,
    };
    Decoded::Opened { names, first }
}

fn process_excel(data: &[u8], config: &PipelineConfig) -> Result<WritePlan, PipelineError> {
    engine::process_excel(data, &decode(data), config)
}

fn read_rows(data: &[u8]) -> Result<Vec<Vec<Cell>>, PipelineError> {
    engine::read_rows(data, &decode(data))
}

fn sample_excel() -> Vec<u8> {
    let mut wb = Workbook::new();
    let ws = wb.add_worksheet();
    ws.write_string(0, 0, "Name").unwrap();
    ws.write_string(1, 0, "Juan").unwrap();
    wb.save_to_buffer().unwrap()
}

#[test]
fn test_pipeline_ok() {
    let data = sample_excel();
    let config = PipelineConfig::new(true, true, true);
    let result = process_excel(&data, &config);
    assert!(result.is_ok());
}

#[test]
fn test_no_features() {
    let data = sample_excel();
    let config = PipelineConfig::new(false, false, false);
    assert!(process_excel(&data, &config).is_ok());
}

#[test]
fn test_header_only() {
    let data = sample_excel();
    let config = PipelineConfig::new(true, false, false);
    assert!(process_excel(&data, &config).is_ok());
}

#[test]
fn test_autofit_only() {
    let data = sample_excel();
    let config = PipelineConfig::new(false, true, false);
    assert!(process_excel(&data, &config).is_ok());
}

#[test]
fn test_freeze_only() {
    let data = sample_excel();
    let config = PipelineConfig::new(false, false, true);
    assert!(process_excel(&data, &config).is_ok());
}

#[test]
fn name_and_juan_document() {
    let config = PipelineConfig::new(true, true, true).with_header_color("#2563EB".to_string());
    let plan = process_excel(&sample_excel(), &config).unwrap();
    assert_eq!(plan.header_color, 0x2563EB);
    assert_eq!(
        plan.cells,
        vec![
            CellWrite { row: 0, col: 0, value: WriteValue::Header("Name".to_string()) },
            CellWrite { row: 1, col: 0, value: WriteValue::Text("Juan".to_string()) },
        ]
    );
    assert_eq!(plan.widths, vec![48]);
    assert!(plan.freeze_header);
}

#[test]
fn no_bytes_is_empty_input_whatever_the_config() {
    for style in [false, true] {
        for color in ["#2563EB", "blue", ""] {
            let config =
                PipelineConfig::new(style, style, !style).with_header_color(color.to_string());
            assert_eq!(process_excel(&[], &config), Err(PipelineError::EmptyInput));
        }
    }
    assert_eq!(read_rows(&[]), Err(PipelineError::EmptyInput));
}

#[test]
fn an_invalid_color_is_refused_before_the_document_is_opened() {
    for bad in ["blue", "#12345", "123456"] {
        let config = PipelineConfig::new(false, false, false).with_header_color(bad.to_string());
        assert_eq!(process_excel(&sample_excel(), &config), Err(PipelineError::InvalidConfig));
        assert_eq!(process_excel(b"garbage", &config), Err(PipelineError::InvalidConfig));
    }
}

#[test]
fn garbage_is_a_corrupt_document() {
    let config = PipelineConfig::new(true, true, true);
    assert_eq!(process_excel(b"garbage", &config), Err(PipelineError::CorruptDocument));
    assert_eq!(read_rows(b"PK\x03\x04 truncated"), Err(PipelineError::CorruptDocument));
    assert_eq!(read_rows(&[0]), Err(PipelineError::CorruptDocument));
}

#[test]
fn rows_are_read_in_sheet_order() {
    let rows = read_rows(&sample_excel()).unwrap();
    assert_eq!(
        rows,
        vec![vec![Cell::Text("Name".to_string())], vec![Cell::Text("Juan".to_string())]]
    );
}

#[test]
fn numbers_read_back_as_numbers() {
    let mut wb = Workbook::new();
    let ws = wb.add_worksheet();
    ws.write_number(0, 0, 3.14).unwrap();
    ws.write_number(0, 1, 42).unwrap();
    let rows = read_rows(&wb.save_to_buffer().unwrap()).unwrap();
    assert_eq!(rows.len(), 1);
    assert_eq!(rows[0].len(), 2);
    match &rows[0][0] {
        Cell::Float(t) => assert_eq!(t.parse::<f64>().unwrap(), 3.14),
        other => panic!("not a number: {:?}", other),
    }
    match &rows[0][1] {
        Cell::Float(t) => assert_eq!(t.parse::<f64>().unwrap(), 42.0),
        Cell::Integer(i) => assert_eq!(*i, 42),
        other => panic!("not a number: {:?}", other),
    }
}

#[test]
fn every_kind_of_cell_is_read() {
    let mut wb = Workbook::new();
    let ws = wb.add_worksheet();
    ws.write_string(0, 0, "label").unwrap();
    ws.write_boolean(0, 1, true).unwrap();
    ws.write_number(0, 3, 2.5).unwrap();
    ws.write_string(1, 0, "next").unwrap();
    let rows = read_rows(&wb.save_to_buffer().unwrap()).unwrap();
    assert_eq!(
        rows,
        vec![
            vec![
                Cell::Text("label".to_string()),
                Cell::Boolean(true),
                Cell::Empty,
                Cell::Float("2.5".to_string()),
            ],
            vec![Cell::Text("next".to_string()), Cell::Empty, Cell::Empty, Cell::Empty],
        ]
    );
}

#[test]
fn only_the_first_sheet_is_read() {
    let mut wb = Workbook::new();
    wb.add_worksheet().write_string(0, 0, "first").unwrap();
    wb.add_worksheet().write_string(0, 0, "second").unwrap();
    let rows = read_rows(&wb.save_to_buffer().unwrap()).unwrap();
    assert_eq!(rows, vec![vec![Cell::Text("first".to_string())]]);
}

#[test]
fn a_sheet_without_cells_has_no_rows() {
    let mut wb = Workbook::new();
    wb.add_worksheet();
    let rows = read_rows(&wb.save_to_buffer().unwrap()).unwrap();
    assert_eq!(rows, Vec::<Vec<Cell>>::new());
    let plan = process_excel(&wb.save_to_buffer().unwrap(), &PipelineConfig::new(true, true, true))
        .unwrap();
    assert!(plan.cells.is_empty());
    assert!(plan.widths.is_empty());
}

#[test]
fn the_first_sheet_is_the_first_name() {
    assert_eq!(engine::first_sheet(&Vec::new()), Err(PipelineError::NoSheetFound));
    let names = vec!["Data".to_string(), "Notes".to_string()];
    assert_eq!(engine::first_sheet(&names), Ok("Data".to_string()));
}

#[test]
fn refusals_before_opening() {
    let good = PipelineConfig::new(true, true, true);
    let bad = PipelineConfig::new(false, false, false).with_header_color("blue".to_string());
    assert_eq!(input_refusal(&[]), Some(PipelineError::EmptyInput));
    assert_eq!(input_refusal(&[1, 2, 3]), None);
    assert_eq!(request_refusal(&[], &good), Some(PipelineError::EmptyInput));
    assert_eq!(request_refusal(&[], &bad), Some(PipelineError::EmptyInput));
    assert_eq!(request_refusal(&[1], &bad), Some(PipelineError::InvalidConfig));
    assert_eq!(request_refusal(&[1], &good), None);
}

#[test]
fn what_the_decoder_reported_decides_the_error() {
    let some: [u8; 3] = [1, 2, 3];
    assert_eq!(engine::read_rows(&some, &Decoded::Unopened), Err(PipelineError::CorruptDocument));
    let no_sheets = Decoded::Opened { names: vec![], first: None };
    assert_eq!(engine::read_rows(&some, &no_sheets), Err(PipelineError::NoSheetFound));
    let undecoded = Decoded::Opened { names: vec!["Data".to_string()], first: None };
    assert_eq!(engine::read_rows(&some, &undecoded), Err(PipelineError::CorruptDocument));
    let empty_sheet =
        Decoded::Opened { names: vec!["Data".to_string()], first: Some(Range::empty()) };
    assert_eq!(engine::read_rows(&some, &empty_sheet), Ok(vec![]));
    assert_eq!(engine::read_rows(&[], &empty_sheet), Err(PipelineError::EmptyInput));
    assert_eq!(engine::read_rows(&[], &no_sheets), Err(PipelineError::EmptyInput));
    let config = PipelineConfig::new(true, true, true);
    assert_eq!(
        engine::process_excel(&some, &no_sheets, &config),
        Err(PipelineError::NoSheetFound)
    );
    let bad = PipelineConfig::new(true, true, true).with_header_color("#12345".to_string());
    assert_eq!(
        engine::process_excel(&some, &no_sheets, &bad),
        Err(PipelineError::InvalidConfig)
    );
    assert_eq!(
        engine::extract_preview(&some, &no_sheets, 3),
        Err(PipelineError::NoSheetFound)
    );
}

#[test]
fn dates_durations_and_errors_become_cells() {
    let mut range: Range<Data> = Range::new((0, 0), (1, 4));
    let date = ExcelDateTime::new(45000.5, ExcelDateTimeType::DateTime, false);
    range.set_value((0, 0), Data::DateTime(date));
    range.set_value((0, 1), Data::DateTimeIso("2024-01-02T03:04:05".to_string()));
    range.set_value((0, 2), Data::DurationIso("PT1H30M".to_string()));
    range.set_value((0, 3), Data::Error(CellErrorType::Div0));
    range.set_value((0, 4), Data::Error(CellErrorType::NA));
    range.set_value((1, 0), Data::Int(-7));
    range.set_value((1, 1), Data::Float(2.5));
    range.set_value((1, 2), Data::Bool(false));
    range.set_value((1, 3), Data::String("text".to_string()));
    let rows = collect_rows(&range);
    assert_eq!(
        rows,
        vec![
            vec![
                Cell::Float("45000.5".to_string()),
                Cell::Text("2024-01-02T03:04:05".to_string()),
                Cell::Text("PT1H30M".to_string()),
                Cell::Text("#DIV/0!".to_string()),
                Cell::Text("#N/A".to_string()),
            ],
            vec![
                Cell::Integer(-7),
                Cell::Float("2.5".to_string()),
                Cell::Boolean(false),
                Cell::Text("text".to_string()),
                Cell::Empty,
            ],
        ]
    );
    let shown: Vec<String> = rows[0].iter().map(|c| c.to_display_string()).collect();
    assert_eq!(shown, vec!["45000.5", "2024-01-02T03:04:05", "PT1H30M", "#DIV/0!", "#N/A"]);
}

#[test]
fn a_range_that_starts_below_the_corner_is_read_from_its_own_corner() {
    let mut range: Range<Data> = Range::new((2, 1), (3, 2));
    range.set_value((2, 1), Data::String("a".to_string()));
    range.set_value((3, 2), Data::Int(1));
    assert_eq!(
        collect_rows(&range),
        vec![
            vec![Cell::Text("a".to_string()), Cell::Empty],
            vec![Cell::Empty, Cell::Integer(1)],
        ]
    );
    assert_eq!(collect_rows(&Range::<Data>::empty()), Vec::<Vec<Cell>>::new());
}

#[test]
fn a_date_cell_of_a_document_is_read_as_its_serial_number() {
    let mut wb = Workbook::new();
    let ws = wb.add_worksheet();
    let format = Format::new().set_num_format("yyyy-mm-dd");
    ws.write_number_with_format(0, 0, 45293, &format).unwrap();
    let rows = read_rows(&wb.save_to_buffer().unwrap()).unwrap();
    assert_eq!(rows, vec![vec![Cell::Float("45293".to_string())]]);
    assert_eq!(rows[0][0].to_display_string(), "45293");
}
