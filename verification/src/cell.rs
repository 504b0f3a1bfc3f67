//! The typed cell and its textual projection.

use vstd::prelude::*;
use vstd::string::*;

verus! {

/// Mathematical value of a cell.
pub enum CellModel {
    Empty,
    Boolean(bool),
    Integer(int),
    Float(Seq<char>),
    Text(Seq<char>),
}

/// One spreadsheet cell.
///
/// A floating-point number is held as its canonical decimal text: the
/// shortest decimal that reads back as the same number. A float whose
/// text is no decimal number is shown as it is and written as text.
#[derive(Debug, Clone, PartialEq)]
pub enum Cell {
    Empty,
    Boolean(bool),
    Integer(i64),
    Float(String),
    Text(String),
}

impl DeepView for Cell {
    type V = CellModel;

    open spec fn deep_view(&self) -> CellModel {
        match self {
            Cell::Empty => CellModel::Empty,
            Cell::Boolean(b) => CellModel::Boolean(*b),
            Cell::Integer(i) => CellModel::Integer(*i as int),
            Cell::Float(t) => CellModel::Float(t@),
            Cell::Text(t) => CellModel::Text(t@),
        }
    }
}

/// The character of one decimal digit.
pub open spec fn digit_char(d: nat) -> char {
    if d == 0 {
        '0'
    } else if d == 1 {
        '1'
    } else if d == 2 {
        '2'
    } else if d == 3 {
        '3'
    } else if d == 4 {
        '4'
    } else if d == 5 {
        '5'
    } else if d == 6 {
        '6'
    } else if d == 7 {
        '7'
    } else if d == 8 {
        '8'
    } else {
        '9'
    }
}

/// Decimal digits of a natural number, most significant first, without
/// leading zeros.
pub open spec fn decimal_digits(n: nat) -> Seq<char>
    decreases n,
{
    if n < 10 {
        seq![digit_char(n)]
    } else {
        decimal_digits(n / 10).push(digit_char(n % 10))
    }
}

/// Decimal text of an integer: a minus sign for a negative one, then the
/// digits of its magnitude.
pub open spec fn integer_text(i: int) -> Seq<char> {
    if i < 0 {
        seq!['-'] + decimal_digits((-i) as nat)
    } else {
        decimal_digits(i as nat)
    }
}

/// Text shown for a cell.
pub open spec fn display_text(c: CellModel) -> Seq<char> {
    match c {
        CellModel::Empty => Seq::empty(),
        CellModel::Boolean(b) => if b {
            "TRUE"@
        } else {
            "FALSE"@
        },
        CellModel::Integer(i) => integer_text(i),
        CellModel::Float(t) => t,
        CellModel::Text(t) => t,
    }
}

/// Texts shown for the cells of one row, in column order.
pub open spec fn row_texts(row: Seq<CellModel>) -> Seq<Seq<char>> {
    Seq::new(row.len(), |c: int| display_text(row[c]))
}

fn digit_str(d: u64) -> (s: &'static str)
    requires
        d < 10,
    ensures
        s@ == seq![digit_char(d as nat)],
{
    proof {
        reveal_strlit("0");
        reveal_strlit("1");
        reveal_strlit("2");
        reveal_strlit("3");
        reveal_strlit("4");
        reveal_strlit("5");
        reveal_strlit("6");
        reveal_strlit("7");
        reveal_strlit("8");
        reveal_strlit("9");
    }
    let s = if d == 0 {
        "0"
    } else if d == 1 {
        "1"
    } else if d == 2 {
        "2"
    } else if d == 3 {
        "3"
    } else if d == 4 {
        "4"
    } else if d == 5 {
        "5"
    } else if d == 6 {
        "6"
    } else if d == 7 {
        "7"
    } else if d == 8 {
        "8"
    } else {
        "9"
    };
    assert(s@ =~= seq![digit_char(d as nat)]);
    s
}

fn push_decimal(n: u64, out: &mut String)
    ensures
        final(out)@ == old(out)@ + decimal_digits(n as nat),
    decreases n,
{
    if n >= 10 {
        push_decimal(n / 10, out);
    }
    let ghost before = out@;
    out.append(digit_str(n % 10));
    proof {
        if n >= 10 {
            assert(out@ =~= old(out)@ + decimal_digits((n / 10) as nat).push(
                digit_char((n % 10) as nat),
            ));
        } else {
            assert(out@ =~= old(out)@ + seq![digit_char(n as nat)]);
        }
    }
}

/// Renders an integer in decimal.
pub fn integer_to_string(i: i64) -> (text: String)
    ensures
        text@ == integer_text(i as int),
{
    let mut text = String::new();
    if i < 0 {
        proof {
            reveal_strlit("-");
        }
        text.append("-");
        let magnitude: u64 = if i == i64::MIN {
            9223372036854775808u64
        } else {
            (-i) as u64
        };
        push_decimal(magnitude, &mut text);
        assert(text@ =~= seq!['-'] + decimal_digits((-i) as nat));
    } else {
        push_decimal(i as u64, &mut text);
        assert(text@ =~= decimal_digits(i as nat));
    }
    text
}

/// Whether a character is a decimal digit.
pub open spec fn is_digit(c: char) -> bool {
    '0' <= c <= '9'
}

/// The end of the run of digits that starts at `from`: the first position
/// at or after `from` that holds no digit, or the length of the text.
pub open spec fn digits_end(text: Seq<char>, from: int) -> int
    decreases text.len() - from,
{
    if 0 <= from < text.len() && is_digit(text[from]) {
        digits_end(text, from + 1)
    } else {
        from
    }
}

/// Whether a text is a decimal number: an optional minus sign, one or
/// more digits, and optionally a point followed by one or more digits.
pub open spec fn is_decimal(text: Seq<char>) -> bool {
    let start: int = if text.len() > 0 && text[0] == '-' {
        1
    } else {
        0
    };
    let whole = digits_end(text, start);
    &&& whole > start
    &&& (whole == text.len() || (text[whole] == '.' && digits_end(text, whole + 1) > whole + 1
        && digits_end(text, whole + 1) == text.len()))
}

fn scan_digits(text: &str, len: usize, from: usize) -> (end: usize)
    requires
        len == text@.len(),
        from <= len,
    ensures
        end == digits_end(text@, from as int),
        from <= end <= len,
{
    let mut i: usize = from;
    while i < len
        invariant
            from <= i <= len,
            len == text@.len(),
            digits_end(text@, from as int) == digits_end(text@, i as int),
        decreases len - i,
    {
        let c = text.get_char(i);
        if !('0' <= c && c <= '9') {
            return i;
        }
        i += 1;
    }
    i
}

/// Tells whether a text is a decimal number.
pub fn is_decimal_text(text: &str) -> (decimal: bool)
    ensures
        decimal == is_decimal(text@),
{
    let len = text.unicode_len();
    let start: usize = if len > 0 && text.get_char(0) == '-' {
        1
    } else {
        0
    };
    let whole = scan_digits(text, len, start);
    if whole == start {
        return false;
    }
    if whole == len {
        return true;
    }
    if text.get_char(whole) != '.' {
        return false;
    }
    let fraction = scan_digits(text, len, whole + 1);
    fraction > whole + 1 && fraction == len
}

impl Cell {
    /// The text shown for this cell: nothing for an empty cell, `TRUE` or
    /// `FALSE` for a boolean, the decimal form of a number, and a text as
    /// it is.
    pub fn to_display_string(&self) -> (text: String)
        ensures
            text@ == display_text(self.deep_view()),
    {
        match self {
            Cell::Empty => String::new(),
            Cell::Boolean(b) => if *b {
                String::from_str("TRUE")
            } else {
                String::from_str("FALSE")
            },
            Cell::Integer(i) => integer_to_string(*i),
            Cell::Float(t) => t.clone(),
            Cell::Text(t) => t.clone(),
        }
    }
}

/// Renders every cell of a row, in column order.
pub fn render_row(row: &Vec<Cell>) -> (texts: Vec<String>)
    ensures
        texts.deep_view() == row_texts(row.deep_view()),
{
    let mut texts: Vec<String> = Vec::new();
    let mut c: usize = 0;
    while c < row.len()
        invariant
            c <= row.len(),
            texts.len() == c,
            forall|k: int| 0 <= k < c ==> texts[k]@ == display_text(#[trigger] row[k].deep_view()),
        decreases row.len() - c,
    {
        texts.push(row[c].to_display_string());
        c += 1;
    }
    assert(texts.deep_view() =~= row_texts(row.deep_view()));
    texts
}

} // verus!
