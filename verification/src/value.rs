//! The value converter: a pure, total mapping from one driver-native value to
//! one generic structured value usable by a UI layer.
//!
//! The driver's wire protocol produces eight value shapes: SQL NULL, raw
//! bytes (covering text, decimals and blobs), signed and unsigned 64-bit
//! integers, single- and double-precision floating values, and calendar
//! date / clock time records.  The embedding application mirrors each into
//! [`DriverValue`] as plain values; floating values arrive as the bits of
//! their widened 64-bit form together with their decimal rendering, since
//! this crate holds no floating-point code of its own.

use crate::base64::{base64_encode, base64_of};
use crate::text::{dec_pad, push_char, push_dec_pad};
use vstd::prelude::*;
use vstd::utf8::{decode_utf8, valid_utf8};

verus! {

/// One driver-native cell value, mirrored into plain values.
pub enum DriverValue {
    /// SQL NULL.
    Null,
    /// Raw bytes: character data, fixed-point decimals and blobs all arrive
    /// in this shape.
    Bytes(Vec<u8>),
    /// A signed integer of any width up to 64 bits.
    Int(i64),
    /// An unsigned integer of any width up to 64 bits.
    UInt(u64),
    /// A single-precision floating value, widened (exactly) to double
    /// precision: the 64-bit IEEE-754 bits and the decimal rendering.
    Float { bits: u64, text: String },
    /// A double-precision floating value: its 64-bit IEEE-754 bits and its
    /// decimal rendering.
    Double { bits: u64, text: String },
    /// A calendar date with time of day: year, month, day, hour, minute,
    /// second, microseconds.
    Date { year: u16, month: u8, day: u8, hour: u8, minute: u8, second: u8, micros: u32 },
    /// A clock interval: sign, days, hours, minutes, seconds, microseconds.
    Time { negative: bool, days: u32, hours: u8, minutes: u8, seconds: u8, micros: u32 },
}

/// The mathematical model of a [`DriverValue`].
pub enum DriverValueModel {
    Null,
    Bytes(Seq<u8>),
    Int(i64),
    UInt(u64),
    Float { bits: u64, text: Seq<char> },
    Double { bits: u64, text: Seq<char> },
    Date { year: u16, month: u8, day: u8, hour: u8, minute: u8, second: u8, micros: u32 },
    Time { negative: bool, days: u32, hours: u8, minutes: u8, seconds: u8, micros: u32 },
}

impl View for DriverValue {
    type V = DriverValueModel;

    open spec fn view(&self) -> DriverValueModel {
        match self {
            DriverValue::Null => DriverValueModel::Null,
            DriverValue::Bytes(b) => DriverValueModel::Bytes(b@),
            DriverValue::Int(i) => DriverValueModel::Int(*i),
            DriverValue::UInt(u) => DriverValueModel::UInt(*u),
            DriverValue::Float { bits, text } => DriverValueModel::Float {
                bits: *bits,
                text: text@,
            },
            DriverValue::Double { bits, text } => DriverValueModel::Double {
                bits: *bits,
                text: text@,
            },
            DriverValue::Date { year, month, day, hour, minute, second, micros } => {
                DriverValueModel::Date {
                    year: *year,
                    month: *month,
                    day: *day,
                    hour: *hour,
                    minute: *minute,
                    second: *second,
                    micros: *micros,
                }
            },
            DriverValue::Time { negative, days, hours, minutes, seconds, micros } => {
                DriverValueModel::Time {
                    negative: *negative,
                    days: *days,
                    hours: *hours,
                    minutes: *minutes,
                    seconds: *seconds,
                    micros: *micros,
                }
            },
        }
    }
}

/// One cell in its generic, UI-facing form: a closed tagged union that
/// serializes to JSON without precision loss for integers and text.
pub enum StructuredValue {
    /// SQL NULL.
    Null,
    /// A truth value.  The driver never produces one directly (tiny integers
    /// arrive as [`StructuredValue::Int`]), but the union carries the kind
    /// for layers above.
    Bool(bool),
    /// A signed 64-bit integer, exact.
    Int(i64),
    /// An unsigned 64-bit integer, exact.
    UInt(u64),
    /// A floating value: the 64-bit IEEE-754 bits (for a lossless numeric
    /// wire form) and its decimal rendering (for display).
    Float { bits: u64, text: String },
    /// Character data.
    Text(String),
    /// Binary data, carried as base64 text since JSON has no byte-string
    /// kind.
    Bytes(String),
}

/// The mathematical model of a [`StructuredValue`].
pub enum StructuredValueModel {
    Null,
    Bool(bool),
    Int(i64),
    UInt(u64),
    Float { bits: u64, text: Seq<char> },
    Text(Seq<char>),
    Bytes(Seq<char>),
}

impl View for StructuredValue {
    type V = StructuredValueModel;

    open spec fn view(&self) -> StructuredValueModel {
        match self {
            StructuredValue::Null => StructuredValueModel::Null,
            StructuredValue::Bool(b) => StructuredValueModel::Bool(*b),
            StructuredValue::Int(i) => StructuredValueModel::Int(*i),
            StructuredValue::UInt(u) => StructuredValueModel::UInt(*u),
            StructuredValue::Float { bits, text } => StructuredValueModel::Float {
                bits: *bits,
                text: text@,
            },
            StructuredValue::Text(s) => StructuredValueModel::Text(s@),
            StructuredValue::Bytes(s) => StructuredValueModel::Bytes(s@),
        }
    }
}

impl DeepView for StructuredValue {
    type V = StructuredValueModel;

    open spec fn deep_view(&self) -> StructuredValueModel {
        self.view()
    }
}

impl DeepView for DriverValue {
    type V = DriverValueModel;

    open spec fn deep_view(&self) -> DriverValueModel {
        self.view()
    }
}

/// The fixed textual form of a date value:
/// `YYYY-MM-DD HH:MM:SS`, with `.NNNNNN` appended when microseconds are
/// present.
pub open spec fn date_text(
    year: u16,
    month: u8,
    day: u8,
    hour: u8,
    minute: u8,
    second: u8,
    micros: u32,
) -> Seq<char> {
    dec_pad(year as nat, 4) + seq!['-'] + dec_pad(month as nat, 2) + seq!['-'] + dec_pad(
        day as nat,
        2,
    ) + seq![' '] + dec_pad(hour as nat, 2) + seq![':'] + dec_pad(minute as nat, 2) + seq![':']
        + dec_pad(second as nat, 2) + if micros == 0 {
        Seq::empty()
    } else {
        seq!['.'] + dec_pad(micros as nat, 6)
    }
}

/// The fixed textual form of a time value: `HH:MM:SS` with a leading `'-'`
/// for a negative interval, the day count folded into the hours, and
/// `.NNNNNN` appended when microseconds are present.
pub open spec fn time_text(
    negative: bool,
    days: u32,
    hours: u8,
    minutes: u8,
    seconds: u8,
    micros: u32,
) -> Seq<char> {
    (if negative {
        seq!['-']
    } else {
        Seq::empty()
    }) + dec_pad((days * 24 + hours) as nat, 2) + seq![':'] + dec_pad(minutes as nat, 2)
        + seq![':'] + dec_pad(seconds as nat, 2) + if micros == 0 {
        Seq::empty()
    } else {
        seq!['.'] + dec_pad(micros as nat, 6)
    }
}

/// The documented conversion: NULL stays NULL, integers keep their exact
/// value, floating values keep their bits and rendering, bytes become text
/// when they decode as UTF-8 and base64 otherwise, and date / time records
/// become their fixed textual form.
pub open spec fn spec_convert(v: DriverValueModel) -> StructuredValueModel {
    match v {
        DriverValueModel::Null => StructuredValueModel::Null,
        DriverValueModel::Bytes(b) => if valid_utf8(b) {
            StructuredValueModel::Text(decode_utf8(b))
        } else {
            StructuredValueModel::Bytes(base64_of(b))
        },
        DriverValueModel::Int(i) => StructuredValueModel::Int(i),
        DriverValueModel::UInt(u) => StructuredValueModel::UInt(u),
        DriverValueModel::Float { bits, text } => StructuredValueModel::Float { bits, text },
        DriverValueModel::Double { bits, text } => StructuredValueModel::Float { bits, text },
        DriverValueModel::Date { year, month, day, hour, minute, second, micros } => {
            StructuredValueModel::Text(date_text(year, month, day, hour, minute, second, micros))
        },
        DriverValueModel::Time { negative, days, hours, minutes, seconds, micros } => {
            StructuredValueModel::Text(time_text(negative, days, hours, minutes, seconds, micros))
        },
    }
}

/// Law: the conversion is total and follows the documented kind table —
/// NULL to NULL, bytes to text or to base64 bytes, integers to integers,
/// both floating widths to the floating kind, date and time records to text.
pub proof fn lemma_convert_kind_table(v: DriverValueModel)
    ensures
        match v {
            DriverValueModel::Null => spec_convert(v) is Null,
            DriverValueModel::Bytes(b) => (valid_utf8(b) ==> spec_convert(v) is Text) && (!valid_utf8(
                b,
            ) ==> spec_convert(v) is Bytes),
            DriverValueModel::Int(_) => spec_convert(v) is Int,
            DriverValueModel::UInt(_) => spec_convert(v) is UInt,
            DriverValueModel::Float { .. } => spec_convert(v) is Float,
            DriverValueModel::Double { .. } => spec_convert(v) is Float,
            DriverValueModel::Date { .. } => spec_convert(v) is Text,
            DriverValueModel::Time { .. } => spec_convert(v) is Text,
        },
{
}

/// Law: converting SQL NULL always yields NULL.
pub proof fn lemma_convert_null()
    ensures
        spec_convert(DriverValueModel::Null) == StructuredValueModel::Null,
{
}

/// Law: an integer within 64-bit range survives conversion with its exact
/// value, signed or unsigned.
pub proof fn lemma_convert_integer_exact(i: i64, u: u64)
    ensures
        spec_convert(DriverValueModel::Int(i)) == StructuredValueModel::Int(i),
        spec_convert(DriverValueModel::UInt(u)) == StructuredValueModel::UInt(u),
{
}

/// Relies on `str::from_utf8`: succeeds exactly on valid UTF-8 input and
/// returns its decoding as owned text.
#[verifier::external_body]
fn bytes_to_text(b: &Vec<u8>) -> (r: Option<String>)
    ensures
        r is Some <==> valid_utf8(b@),
        r is Some ==> r->0@ == decode_utf8(b@),
{
    match core::str::from_utf8(b.as_slice()) {
        Ok(s) => Some(s.to_string()),
        Err(_) => None,
    }
}

/// Appends the `.NNNNNN` microsecond suffix when `micros` is nonzero.
fn push_micros(s: &mut String, micros: u32)
    ensures
        final(s)@ == old(s)@ + if micros == 0 {
            Seq::<char>::empty()
        } else {
            seq!['.'] + dec_pad(micros as nat, 6)
        },
{
    if micros != 0 {
        push_char(s, '.');
        push_dec_pad(s, micros as u64, 6);
        proof {
            assert(final(s)@ =~= old(s)@ + (seq!['.'] + dec_pad(micros as nat, 6)));
        }
    } else {
        proof {
            assert(final(s)@ =~= old(s)@);
        }
    }
}

/// Converts one driver-native value into its generic structured form.
///
/// The mapping is total: every value shape the driver can produce maps to
/// exactly one structured kind, and no input is rejected.
pub fn convert(v: &DriverValue) -> (r: StructuredValue)
    ensures
        r@ == spec_convert(v@),
{
    match v {
        DriverValue::Null => StructuredValue::Null,
        DriverValue::Bytes(b) => {
            match bytes_to_text(b) {
                Some(s) => StructuredValue::Text(s),
                None => {
                    // not character data: carry it as base64 text
                    StructuredValue::Bytes(base64_encode(b))
                },
            }
        },
        DriverValue::Int(i) => StructuredValue::Int(*i),
        DriverValue::UInt(u) => StructuredValue::UInt(*u),
        DriverValue::Float { bits, text } => StructuredValue::Float {
            bits: *bits,
            text: text.clone(),
        },
        DriverValue::Double { bits, text } => StructuredValue::Float {
            bits: *bits,
            text: text.clone(),
        },
        DriverValue::Date { year, month, day, hour, minute, second, micros } => {
            let mut s = String::new();
            push_dec_pad(&mut s, *year as u64, 4);
            push_char(&mut s, '-');
            push_dec_pad(&mut s, *month as u64, 2);
            push_char(&mut s, '-');
            push_dec_pad(&mut s, *day as u64, 2);
            push_char(&mut s, ' ');
            push_dec_pad(&mut s, *hour as u64, 2);
            push_char(&mut s, ':');
            push_dec_pad(&mut s, *minute as u64, 2);
            push_char(&mut s, ':');
            push_dec_pad(&mut s, *second as u64, 2);
            push_micros(&mut s, *micros);
            proof {
                assert(s@ =~= date_text(*year, *month, *day, *hour, *minute, *second, *micros));
            }
            StructuredValue::Text(s)
        },
        DriverValue::Time { negative, days, hours, minutes, seconds, micros } => {
            let mut s = String::new();
            if *negative {
                push_char(&mut s, '-');
            }
            let total_hours: u64 = (*days as u64) * 24 + (*hours as u64);
            push_dec_pad(&mut s, total_hours, 2);
            push_char(&mut s, ':');
            push_dec_pad(&mut s, *minutes as u64, 2);
            push_char(&mut s, ':');
            push_dec_pad(&mut s, *seconds as u64, 2);
            push_micros(&mut s, *micros);
            proof {
                assert(s@ =~= time_text(*negative, *days, *hours, *minutes, *seconds, *micros));
            }
            StructuredValue::Text(s)
        },
    }
}

} // verus!
