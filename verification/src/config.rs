//! Pipeline options, the header colour, and the error taxonomy.

use vstd::prelude::*;
use vstd::string::*;

verus! {

/// Why a call failed. Every failure is final for the call.
#[derive(Debug, Clone, Copy, PartialEq, Eq, Structural)]
pub enum PipelineError {
    /// The input buffer holds no bytes.
    EmptyInput,
    /// The container could not be parsed.
    CorruptDocument,
    /// The document has no worksheet.
    NoSheetFound,
    /// The header colour is not `#` and six hexadecimal digits.
    InvalidConfig,
    /// A write was refused, such as one outside the sheet.
    WriteError,
}

impl PipelineError {
    /// A short message for a person.
    pub fn message(&self) -> (text: String)
        ensures
            text@ == match *self {
                PipelineError::EmptyInput => "input is empty"@,
                PipelineError::CorruptDocument => "document cannot be parsed"@,
                PipelineError::NoSheetFound => "document has no worksheet"@,
                PipelineError::InvalidConfig => "header colour is not # and six hex digits"@,
                PipelineError::WriteError => "write was refused"@,
            },
    {
        match self {
            PipelineError::EmptyInput => String::from_str("input is empty"),
            PipelineError::CorruptDocument => String::from_str("document cannot be parsed"),
            PipelineError::NoSheetFound => String::from_str("document has no worksheet"),
            PipelineError::InvalidConfig => String::from_str(
                "header colour is not # and six hex digits",
            ),
            PipelineError::WriteError => String::from_str("write was refused"),
        }
    }
}

/// Value of a hexadecimal digit, upper or lower case.
pub open spec fn hex_value(c: char) -> Option<int> {
    if '0' <= c <= '9' {
        Some(c as int - '0' as int)
    } else if 'a' <= c <= 'f' {
        Some(c as int - 'a' as int + 10)
    } else if 'A' <= c <= 'F' {
        Some(c as int - 'A' as int + 10)
    } else {
        None
    }
}

/// Value of a run of hexadecimal digits, most significant first.
pub open spec fn hex_number(digits: Seq<char>) -> int
    decreases digits.len(),
{
    if digits.len() == 0 {
        0
    } else {
        hex_number(digits.drop_last()) * 16 + match hex_value(digits.last()) {
            Some(v) => v,
            None => 0,
        }
    }
}

/// Whether a text is `#` followed by exactly six hexadecimal digits.
pub open spec fn is_color(text: Seq<char>) -> bool {
    &&& text.len() == 7
    &&& text[0] == '#'
    &&& forall|i: int| 1 <= i < 7 ==> hex_value(#[trigger] text[i]).is_some()
}

/// The 24-bit RGB value that a colour text encodes.
pub open spec fn color_value(text: Seq<char>) -> Option<int> {
    if is_color(text) {
        Some(hex_number(text.subrange(1, 7)))
    } else {
        None
    }
}

fn hex_digit(c: char) -> (v: Option<u32>)
    ensures
        v.is_some() == hex_value(c).is_some(),
        v.is_some() ==> v.unwrap() as int == hex_value(c).unwrap() && v.unwrap() < 16,
{
    if '0' <= c && c <= '9' {
        Some(c as u32 - '0' as u32)
    } else if 'a' <= c && c <= 'f' {
        Some(c as u32 - 'a' as u32 + 10)
    } else if 'A' <= c && c <= 'F' {
        Some(c as u32 - 'A' as u32 + 10)
    } else {
        None
    }
}

/// Decodes a header colour. Gives the RGB value for `#` and six
/// hexadecimal digits, in either case, and nothing for any other text.
pub fn parse_color(text: &str) -> (rgb: Option<u32>)
    ensures
        rgb.is_some() == is_color(text@),
        rgb.is_some() ==> Some(rgb.unwrap() as int) == color_value(text@),
        rgb.is_some() ==> rgb.unwrap() <= 0xFF_FFFF,
{
    if text.unicode_len() != 7 {
        return None;
    }
    if text.get_char(0) != '#' {
        return None;
    }
    let mut value: u32 = 0;
    let mut i: usize = 1;
    while i < 7
        invariant
            1 <= i <= 7,
            text@.len() == 7,
            text@[0] == '#',
            forall|k: int| 1 <= k < i ==> hex_value(#[trigger] text@[k]).is_some(),
            value as int == hex_number(text@.subrange(1, i as int)),
            value < digits_bound(i),
        decreases 7 - i,
    {
        let digit = hex_digit(text.get_char(i));
        match digit {
            None => {
                return None;
            },
            Some(d) => {
                proof {
                    let next = text@.subrange(1, i as int + 1);
                    assert(next.drop_last() =~= text@.subrange(1, i as int));
                    assert(next.last() == text@[i as int]);
                }
                value = value * 16 + d;
                i += 1;
            },
        }
    }
    Some(value)
}

/// A strict bound on the value of the digits read before position `i`.
spec fn digits_bound(i: usize) -> u32 {
    if i <= 1 {
        0x1
    } else if i == 2 {
        0x10
    } else if i == 3 {
        0x100
    } else if i == 4 {
        0x1000
    } else if i == 5 {
        0x1_0000
    } else if i == 6 {
        0x10_0000
    } else {
        0x100_0000
    }
}

/// Mathematical value of a configuration.
pub struct ConfigModel {
    pub header_style: bool,
    pub autofit: bool,
    pub freeze_header: bool,
    pub header_color: Seq<char>,
}

/// What the pipeline is asked to do besides copying the cells.
#[derive(Debug, Clone, PartialEq, Eq)]
pub struct PipelineConfig {
    /// Write the first row in the header format.
    pub header_style: bool,
    /// Size every column to the longest text seen in it.
    pub autofit: bool,
    /// Keep the first row in place when the sheet scrolls.
    pub freeze_header: bool,
    /// Header background: `#` and six hexadecimal digits.
    pub header_color: String,
}

impl DeepView for PipelineConfig {
    type V = ConfigModel;

    open spec fn deep_view(&self) -> ConfigModel {
        ConfigModel {
            header_style: self.header_style,
            autofit: self.autofit,
            freeze_header: self.freeze_header,
            header_color: self.header_color@,
        }
    }
}

impl PipelineConfig {
    /// A configuration with the given switches and the default header
    /// colour, `#2563EB`.
    pub fn new(header_style: bool, autofit: bool, freeze_header: bool) -> (config: Self)
        ensures
            config.deep_view() == (ConfigModel {
                header_style,
                autofit,
                freeze_header,
                header_color: "#2563EB"@,
            }),
    {
        PipelineConfig {
            header_style,
            autofit,
            freeze_header,
            header_color: String::from_str("#2563EB"),
        }
    }

    /// The same configuration with another header colour. The colour is
    /// checked when the configuration is used.
    pub fn with_header_color(self, header_color: String) -> (config: Self)
        ensures
            config.deep_view() == (ConfigModel { header_color: header_color@, ..self.deep_view() }),
    {
        PipelineConfig {
            header_style: self.header_style,
            autofit: self.autofit,
            freeze_header: self.freeze_header,
            header_color,
        }
    }

    /// The RGB value of the header colour, or `InvalidConfig`.
    pub fn validate(&self) -> (rgb: Result<u32, PipelineError>)
        ensures
            is_color(self.header_color@) ==> rgb.is_ok() && Some(rgb.unwrap() as int)
                == color_value(self.header_color@),
            !is_color(self.header_color@) ==> rgb == Err::<u32, PipelineError>(
                PipelineError::InvalidConfig,
            ),
    {
        match parse_color(self.header_color.as_str()) {
            Some(rgb) => Ok(rgb),
            None => Err(PipelineError::InvalidConfig),
        }
    }
}

} // verus!
