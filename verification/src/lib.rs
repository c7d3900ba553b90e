pub mod content_type;
pub mod html_response;
pub mod json;
pub mod json_response;
pub mod openapi;
pub mod reply;
pub mod response_attrs;
pub mod status_code;
pub mod strutil;

use vstd::prelude::*;

use crate::json::spec_hex_digit;
use crate::openapi::{Schema, SchemaType, SchemaV};

verus! {

/// The example value shown for the uuid schema.
pub const UUID_EXAMPLE: u128 = 0x334518f4_1bfd_4f20_9978_bfad0dc033e1;

/// The lowest `digits` hex digits of a number, most significant first.
pub open spec fn spec_hex_fixed(n: nat, digits: nat) -> Seq<char>
    decreases digits,
{
    if digits == 0 {
        Seq::empty()
    } else {
        spec_hex_fixed(n / 16, (digits - 1) as nat).push(spec_hex_digit((n % 16) as int))
    }
}

/// The hyphenated form of a 128-bit identifier: its 32 lower-case hex
/// digits, most significant first, with hyphens after the 8th, 12th, 16th
/// and 20th digit.
pub open spec fn spec_uuid_str(n: u128) -> Seq<char> {
    let h = spec_hex_fixed(n as nat, 32);
    h.subrange(0, 8) + seq!['-'] + h.subrange(8, 12) + seq!['-'] + h.subrange(12, 16) + seq!['-']
        + h.subrange(16, 20) + seq!['-'] + h.subrange(20, 32)
}

/// Relies on `uuid::Uuid::from_u128`, which takes the 128 bits big-endian,
/// and on its display form: the hyphenated lower-case hex rendering that
/// `spec_uuid_str` lays out.
#[verifier::external_body]
fn uuid_hyphenated(value: u128) -> (r: String)
    ensures
        r@ == spec_uuid_str(value),
{
    uuid::Uuid::from_u128(value).to_string()
}

/// The schema that every wrapper type describes: a string with a format
/// name and, possibly, an example.
pub open spec fn spec_string_schema(format: Seq<char>, example: Option<Seq<char>>) -> SchemaV {
    SchemaV {
        description: Seq::empty(),
        format,
        properties: Seq::empty(),
        example,
        schema_type: Some(SchemaType::StringType),
        required: Seq::empty(),
    }
}

/// Build the schema value for a wrapper type.
fn string_schema(format: String, example: Option<String>) -> (r: Schema)
    ensures
        r@ == spec_string_schema(
            format@,
            match example {
                Some(e) => Some(e@),
                None => None,
            },
        ),
{
    let r = Schema {
        description: String::new(),
        format,
        properties: Vec::new(),
        example,
        schema_type: Some(SchemaType::StringType),
        required: Vec::new(),
    };
    proof {
        assert(r@ =~~= spec_string_schema(
            r.format@,
            match r.example {
                Some(e) => Some(e@),
                None => None,
            },
        ));
    }
    r
}

/// A point in time, held as seconds since the Unix epoch and a nanosecond
/// within the second.
#[derive(Clone, Copy, Debug, PartialEq, Eq, Structural, Hash)]
pub struct DateTimeType {
    unix_seconds: i64,
    nanosecond: u32,
}

impl DateTimeType {
    /// The seconds since the Unix epoch.
    pub closed spec fn spec_unix_seconds(self) -> i64 {
        self.unix_seconds
    }

    /// The nanosecond within the second.
    pub closed spec fn spec_nanosecond(self) -> u32 {
        self.nanosecond
    }

    /// Build a point in time; a nanosecond of a full second or more is
    /// refused.
    pub fn new(unix_seconds: i64, nanosecond: u32) -> (r: Option<Self>)
        ensures
            r is Some <==> nanosecond < 1_000_000_000,
            r matches Some(v) ==> v.spec_unix_seconds() == unix_seconds
                && v.spec_nanosecond() == nanosecond,
    {
        if nanosecond < 1_000_000_000 {
            Some(DateTimeType { unix_seconds, nanosecond })
        } else {
            None
        }
    }

    /// The seconds since the Unix epoch.
    pub fn unix_seconds(self) -> (r: i64)
        ensures
            r == self.spec_unix_seconds(),
    {
        self.unix_seconds
    }

    /// The nanosecond within the second.
    pub fn nanosecond(self) -> (r: u32)
        ensures
            r == self.spec_nanosecond(),
    {
        self.nanosecond
    }

    /// The schema name of the type.
    pub fn schema_name() -> (r: &'static str)
        ensures
            r@ == "date-time"@,
    {
        "date-time"
    }

    /// The schema of the type: a string in date-time format.
    pub fn describe() -> (r: Schema)
        ensures
            r@ == spec_string_schema("date-time"@, None),
    {
        string_schema("date-time".to_owned(), None)
    }
}

/// Whether a proleptic Gregorian year is a leap year.
pub open spec fn spec_is_leap_year(year: int) -> bool {
    let a = if year < 0 {
        -year
    } else {
        year
    };
    (a % 4 == 0 && a % 100 != 0) || a % 400 == 0
}

/// How many days the month of a year has.
pub open spec fn spec_days_in_month(year: int, month: int) -> int {
    if month == 2 {
        if spec_is_leap_year(year) {
            29
        } else {
            28
        }
    } else if month == 4 || month == 6 || month == 9 || month == 11 {
        30
    } else {
        31
    }
}

/// A calendar date that exists: a year within the supported range, a month,
/// and a day that the month has.
pub open spec fn spec_valid_date(year: int, month: int, day: int) -> bool {
    &&& -9999 <= year <= 9999
    &&& 1 <= month <= 12
    &&& 1 <= day <= spec_days_in_month(year, month)
}

/// Whether a year is a leap year.
pub fn is_leap_year(year: i32) -> (r: bool)
    ensures
        r == spec_is_leap_year(year as int),
{
    let a: i64 = if year < 0 {
        -(year as i64)
    } else {
        year as i64
    };
    (a % 4 == 0 && a % 100 != 0) || a % 400 == 0
}

/// A calendar date, held as year, month and day.
#[derive(Clone, Copy, Debug, PartialEq, Eq, Structural, Hash)]
pub struct DateType {
    year: i32,
    month: u8,
    day: u8,
}

impl DateType {
    /// The year.
    pub closed spec fn spec_year(self) -> i32 {
        self.year
    }

    /// The month, from 1 to 12.
    pub closed spec fn spec_month(self) -> u8 {
        self.month
    }

    /// The day of the month, from 1.
    pub closed spec fn spec_day(self) -> u8 {
        self.day
    }

    /// Build a date; a triple that is no calendar date is refused.
    pub fn new(year: i32, month: u8, day: u8) -> (r: Option<Self>)
        ensures
            r is Some <==> spec_valid_date(year as int, month as int, day as int),
            r matches Some(v) ==> v.spec_year() == year && v.spec_month() == month
                && v.spec_day() == day,
    {
        if year < -9999 || year > 9999 {
            return None;
        }
        if month < 1 || month > 12 {
            return None;
        }
        let days: u8 = if month == 2 {
            if is_leap_year(year) {
                29
            } else {
                28
            }
        } else if month == 4 || month == 6 || month == 9 || month == 11 {
            30
        } else {
            31
        };
        if day < 1 || day > days {
            return None;
        }
        Some(DateType { year, month, day })
    }

    /// The year.
    pub fn year(self) -> (r: i32)
        ensures
            r == self.spec_year(),
    {
        self.year
    }

    /// The month.
    pub fn month(self) -> (r: u8)
        ensures
            r == self.spec_month(),
    {
        self.month
    }

    /// The day.
    pub fn day(self) -> (r: u8)
        ensures
            r == self.spec_day(),
    {
        self.day
    }

    /// The schema name of the type.
    pub fn schema_name() -> (r: &'static str)
        ensures
            r@ == "date"@,
    {
        "date"
    }

    /// The schema of the type: a string in date format, with an example.
    pub fn describe() -> (r: Schema)
        ensures
            r@ == spec_string_schema("date"@, Some("2023-01-01"@)),
    {
        string_schema("date".to_owned(), Some("2023-01-01".to_owned()))
    }
}

/// A 128-bit identifier.
#[derive(Clone, Copy, Debug, PartialEq, Eq, Structural, Hash)]
pub struct UuidWrapper {
    value: u128,
}

impl UuidWrapper {
    /// The 128 bits of the identifier.
    pub closed spec fn spec_value(self) -> u128 {
        self.value
    }

    /// Wrap the 128 bits of an identifier.
    pub fn new(value: u128) -> (r: Self)
        ensures
            r.spec_value() == value,
    {
        UuidWrapper { value }
    }

    /// The 128 bits of the identifier.
    pub fn as_u128(self) -> (r: u128)
        ensures
            r == self.spec_value(),
    {
        self.value
    }

    /// The hyphenated text form of the identifier.
    pub fn hyphenated(self) -> (r: String)
        ensures
            r@ == spec_uuid_str(self.spec_value()),
    {
        uuid_hyphenated(self.value)
    }

    /// The schema name of the type.
    pub fn schema_name() -> (r: &'static str)
        ensures
            r@ == "uuid"@,
    {
        "uuid"
    }

    /// The schema of the type: a string in uuid format, with a fixed example
    /// identifier rendered in hyphenated form.
    pub fn describe() -> (r: Schema)
        ensures
            r@ == spec_string_schema("uuid"@, Some(spec_uuid_str(UUID_EXAMPLE))),
    {
        string_schema("uuid".to_owned(), Some(uuid_hyphenated(UUID_EXAMPLE)))
    }
}

/// A decimal number, held as an integer mantissa and a scale: the value is
/// the mantissa shifted `scale` decimal places to the right.
#[derive(Clone, Copy, Debug, PartialEq, Eq, Structural, Hash)]
pub struct DecimalWrapper {
    mantissa: i128,
    scale: u32,
}

/// What a decimal can hold: a mantissa of at most 96 bits and a scale of at
/// most 28 places.
pub open spec fn spec_valid_decimal(mantissa: int, scale: int) -> bool {
    &&& -0x1000000000000000000000000 < mantissa < 0x1000000000000000000000000
    &&& 0 <= scale <= 28
}

impl DecimalWrapper {
    /// The mantissa.
    pub closed spec fn spec_mantissa(self) -> i128 {
        self.mantissa
    }

    /// The scale: how many decimal places the mantissa is shifted.
    pub closed spec fn spec_scale(self) -> u32 {
        self.scale
    }

    /// Build a decimal; a mantissa beyond 96 bits or a scale beyond 28 is
    /// refused.
    pub fn new(mantissa: i128, scale: u32) -> (r: Option<Self>)
        ensures
            r is Some <==> spec_valid_decimal(mantissa as int, scale as int),
            r matches Some(v) ==> v.spec_mantissa() == mantissa && v.spec_scale() == scale,
    {
        if mantissa > -0x1000000000000000000000000i128 && mantissa
            < 0x1000000000000000000000000i128 && scale <= 28 {
            Some(DecimalWrapper { mantissa, scale })
        } else {
            None
        }
    }

    /// The mantissa.
    pub fn mantissa(self) -> (r: i128)
        ensures
            r == self.spec_mantissa(),
    {
        self.mantissa
    }

    /// The scale.
    pub fn scale(self) -> (r: u32)
        ensures
            r == self.spec_scale(),
    {
        self.scale
    }

    /// The schema name of the type.
    pub fn schema_name() -> (r: &'static str)
        ensures
            r@ == "decimal"@,
    {
        "decimal"
    }

    /// The schema of the type: a string in decimal format, with an example.
    pub fn describe() -> (r: Schema)
        ensures
            r@ == spec_string_schema("decimal"@, Some("1.234"@)),
    {
        string_schema("decimal".to_owned(), Some("1.234".to_owned()))
    }
}

} // verus!
