//! Parquet values and how a read turns them into Ruby objects.
//!
//! `parquet_to_ruby` decides, for each value, which Ruby object stands for
//! it and computes the arguments of its constructor: integers as Integer,
//! text through the string storage, timestamps split into seconds and a
//! sub-second part, decimals as the text `BigDecimal` reads. The bindings
//! then build the objects the `RubyOut` tree describes, in its order.

use crate::decimal::{
    big_int_value, decimal_text, decimal_text_defined, format_decimal128, format_decimal256,
    trunc_div,
};
use crate::string_cache::{arc_clone, arc_str_text};
use crate::text::push_char;
use triomphe::Arc;
use vstd::prelude::*;

verus! {

broadcast use vstd::string::group_string_axioms;

/// A value read from or written to a Parquet column.
///
/// Floating-point values are held by their IEEE-754 bits (`Float16` holds
/// the bits of the `f32` it is widened to); a UUID by its 128-bit value;
/// a record by its fields in order.
#[derive(Debug, PartialEq)]
pub enum ParquetValue {
    Null,
    Boolean(bool),
    Int8(i8),
    Int16(i16),
    Int32(i32),
    Int64(i64),
    UInt8(u8),
    UInt16(u16),
    UInt32(u32),
    UInt64(u64),
    Float16(u32),
    Float32(u32),
    Float64(u64),
    String(Arc<str>),
    Uuid(u128),
    Bytes(Vec<u8>),
    Date32(i32),
    Date64(i64),
    TimeMillis(i32),
    TimeMicros(i64),
    TimeNanos(i64),
    TimestampSecond(i64, Option<Arc<str>>),
    TimestampMillis(i64, Option<Arc<str>>),
    TimestampMicros(i64, Option<Arc<str>>),
    TimestampNanos(i64, Option<Arc<str>>),
    Decimal128(i128, i8),
    Decimal256(num::BigInt, i8),
    List(Vec<ParquetValue>),
    MapValue(Vec<(ParquetValue, ParquetValue)>),
    Record(Vec<(Arc<str>, ParquetValue)>),
}

/// The sub-second argument of `Time.at`.
#[derive(Debug, Clone, Copy, PartialEq, Eq, Structural)]
pub enum TimeSub {
    /// No sub-second argument.
    Whole,
    /// A second argument, which `Time.at` reads as microseconds.
    Micros(i64),
    /// A second argument read as nanoseconds (`:nanosecond`).
    Nanos(i64),
}

/// The Ruby object that stands for a Parquet value.
#[derive(Debug, PartialEq)]
pub enum RubyOut {
    Nil,
    Bool(bool),
    Integer(i128),
    /// A Float from the `f32` with these bits, through its shortest decimal
    /// text.
    FloatOfF32(u32),
    /// A Float with these bits.
    Float(u64),
    /// A string made by the read's string storage.
    Str(Arc<str>),
    /// A new UTF-8 string.
    Text(String),
    /// A binary (`ASCII-8BIT`) string.
    Binary(Vec<u8>),
    /// `Date.new` of the UTC calendar day of `Time.at(seconds)`.
    DateOfSeconds(i64),
    /// `Time.at(secs[, sub])`, in UTC when `in_utc`, then `.utc` when
    /// `to_utc`.
    TimeAt { secs: i64, sub: TimeSub, in_utc: bool, to_utc: bool },
    /// `Time.utc` of today's date at this time of day.
    TimeToday { hours: i64, minutes: i64, seconds: i64, usec: i64 },
    /// `BigDecimal(text)`.
    BigDecimal(String),
    Array(Vec<RubyOut>),
    Hash(Vec<(RubyOut, RubyOut)>),
    /// A hash whose keys are field names made by the read's key cache.
    Record(Vec<(Arc<str>, RubyOut)>),
}

/// A `RubyOut` with its texts as sequences.
pub enum OutView {
    Nil,
    Bool(bool),
    Integer(int),
    FloatOfF32(u32),
    Float(u64),
    Str(Seq<char>),
    Text(Seq<char>),
    Binary(Seq<u8>),
    DateOfSeconds(int),
    TimeAt { secs: int, sub: TimeSub, in_utc: bool, to_utc: bool },
    TimeToday { hours: int, minutes: int, seconds: int, usec: int },
    BigDecimal(Seq<char>),
    Array(Seq<OutView>),
    Hash(Seq<(OutView, OutView)>),
    Record(Seq<(Seq<char>, OutView)>),
}

/// The view of a Ruby object description.
pub open spec fn out_view(o: RubyOut) -> OutView
    decreases o,
{
    match o {
        RubyOut::Nil => OutView::Nil,
        RubyOut::Bool(b) => OutView::Bool(b),
        RubyOut::Integer(i) => OutView::Integer(i as int),
        RubyOut::FloatOfF32(b) => OutView::FloatOfF32(b),
        RubyOut::Float(b) => OutView::Float(b),
        RubyOut::Str(a) => OutView::Str(arc_str_text(a)),
        RubyOut::Text(t) => OutView::Text(t@),
        RubyOut::Binary(b) => OutView::Binary(b@),
        RubyOut::DateOfSeconds(s) => OutView::DateOfSeconds(s as int),
        RubyOut::TimeAt { secs, sub, in_utc, to_utc } => OutView::TimeAt { secs: secs as int, sub, in_utc, to_utc },
        RubyOut::TimeToday { hours, minutes, seconds, usec } => OutView::TimeToday {
            hours: hours as int,
            minutes: minutes as int,
            seconds: seconds as int,
            usec: usec as int,
        },
        RubyOut::BigDecimal(t) => OutView::BigDecimal(t@),
        RubyOut::Array(items) => OutView::Array(outs_view(items@)),
        RubyOut::Hash(pairs) => OutView::Hash(out_pairs_view(pairs@)),
        RubyOut::Record(fields) => OutView::Record(out_fields_view(fields@)),
    }
}

pub open spec fn outs_view(s: Seq<RubyOut>) -> Seq<OutView>
    decreases s,
{
    if s.len() == 0 {
        Seq::empty()
    } else {
        outs_view(s.drop_last()).push(out_view(s.last()))
    }
}

pub open spec fn out_pairs_view(s: Seq<(RubyOut, RubyOut)>) -> Seq<(OutView, OutView)>
    decreases s,
{
    if s.len() == 0 {
        Seq::empty()
    } else {
        out_pairs_view(s.drop_last()).push((out_view(s.last().0), out_view(s.last().1)))
    }
}

pub open spec fn out_fields_view(s: Seq<(Arc<str>, RubyOut)>) -> Seq<(Seq<char>, OutView)>
    decreases s,
{
    if s.len() == 0 {
        Seq::empty()
    } else {
        out_fields_view(s.drop_last()).push((arc_str_text(s.last().0), out_view(s.last().1)))
    }
}

/// The remainder of `a` divided by `b > 0`, with the sign of `a`, as Rust's
/// `%` gives it.
pub open spec fn trunc_rem(a: int, b: int) -> int {
    a - b * trunc_div(a, b)
}

/// The hexadecimal digit of `d < 16`, in lower case.
pub open spec fn hex_char(d: nat) -> char {
    if d < 10 {
        (d + '0' as nat) as char
    } else {
        (d - 10 + 'a' as nat) as char
    }
}

/// The last `n` hexadecimal digits of `x`, most significant first.
pub open spec fn hex_digits(x: nat, n: nat) -> Seq<char>
    decreases n,
{
    if n == 0 {
        Seq::empty()
    } else {
        hex_digits(x / 16, (n - 1) as nat).push(hex_char(x % 16))
    }
}

/// The character at position `j` of the hyphenated form of the hex
/// digits `h`: hyphens at 8, 13, 18 and 23, the digits in order elsewhere.
pub open spec fn uuid_char(h: Seq<char>, j: int) -> char {
    if j == 8 || j == 13 || j == 18 || j == 23 {
        '-'
    } else if j < 8 {
        h[j]
    } else if j < 13 {
        h[j - 1]
    } else if j < 18 {
        h[j - 2]
    } else if j < 23 {
        h[j - 3]
    } else {
        h[j - 4]
    }
}

/// The hyphenated lower-case text of a UUID (`8-4-4-4-12` hex digits).
pub open spec fn uuid_text(u: u128) -> Seq<char> {
    Seq::new(36, |j: int| uuid_char(hex_digits(u as nat, 32), j))
}

/// The time zone argument is set.
pub open spec fn has_tz(tz: Option<Arc<str>>) -> bool {
    tz is Some
}

/// The Ruby object a Parquet value becomes (see `RubyOut`).
pub open spec fn expected_out(v: ParquetValue) -> OutView
    decreases v,
{
    match v {
        ParquetValue::Null => OutView::Nil,
        ParquetValue::Boolean(b) => OutView::Bool(b),
        ParquetValue::Int8(i) => OutView::Integer(i as int),
        ParquetValue::Int16(i) => OutView::Integer(i as int),
        ParquetValue::Int32(i) => OutView::Integer(i as int),
        ParquetValue::Int64(i) => OutView::Integer(i as int),
        ParquetValue::UInt8(i) => OutView::Integer(i as int),
        ParquetValue::UInt16(i) => OutView::Integer(i as int),
        ParquetValue::UInt32(i) => OutView::Integer(i as int),
        ParquetValue::UInt64(i) => OutView::Integer(i as int),
        ParquetValue::Float16(b) => OutView::FloatOfF32(b),
        ParquetValue::Float32(b) => OutView::FloatOfF32(b),
        ParquetValue::Float64(b) => OutView::Float(b),
        ParquetValue::String(s) => OutView::Str(arc_str_text(s)),
        ParquetValue::Uuid(u) => OutView::Text(uuid_text(u)),
        ParquetValue::Bytes(b) => OutView::Binary(b@),
        ParquetValue::Date32(days) => OutView::DateOfSeconds(days as int * 86400),
        ParquetValue::Date64(millis) => OutView::TimeAt {
            secs: trunc_div(millis as int, 1000),
            sub: TimeSub::Micros((trunc_rem(millis as int, 1000) * 1_000_000) as i64),
            in_utc: false,
            to_utc: false,
        },
        ParquetValue::TimeMillis(millis) => OutView::TimeToday {
            hours: trunc_div(millis as int, 3_600_000),
            minutes: trunc_div(trunc_rem(millis as int, 3_600_000), 60_000),
            seconds: trunc_div(trunc_rem(millis as int, 60_000), 1000),
            usec: trunc_rem(millis as int, 1000) * 1000,
        },
        ParquetValue::TimeMicros(micros) => OutView::TimeToday {
            hours: trunc_div(micros as int, 3_600_000_000),
            minutes: trunc_div(trunc_rem(micros as int, 3_600_000_000), 60_000_000),
            seconds: trunc_div(trunc_rem(micros as int, 60_000_000), 1_000_000),
            usec: trunc_rem(micros as int, 1_000_000),
        },
        ParquetValue::TimeNanos(nanos) => OutView::TimeAt {
            secs: trunc_div(nanos as int, 1_000_000_000),
            sub: TimeSub::Nanos(trunc_rem(nanos as int, 1_000_000_000) as i64),
            in_utc: true,
            to_utc: false,
        },
        ParquetValue::TimestampSecond(secs, tz) => OutView::TimeAt {
            secs: secs as int,
            sub: TimeSub::Whole,
            in_utc: true,
            to_utc: has_tz(tz),
        },
        ParquetValue::TimestampMillis(millis, tz) => OutView::TimeAt {
            secs: trunc_div(millis as int, 1000),
            sub: TimeSub::Micros((trunc_rem(millis as int, 1000) * 1000) as i64),
            in_utc: true,
            to_utc: has_tz(tz),
        },
        ParquetValue::TimestampMicros(micros, tz) => OutView::TimeAt {
            secs: trunc_div(micros as int, 1_000_000),
            sub: TimeSub::Micros(trunc_rem(micros as int, 1_000_000) as i64),
            in_utc: true,
            to_utc: has_tz(tz),
        },
        ParquetValue::TimestampNanos(nanos, tz) => OutView::TimeAt {
            secs: trunc_div(nanos as int, 1_000_000_000),
            sub: TimeSub::Nanos(trunc_rem(nanos as int, 1_000_000_000) as i64),
            in_utc: true,
            to_utc: has_tz(tz),
        },
        ParquetValue::Decimal128(x, s) => OutView::BigDecimal(decimal_text(x as int, s as int)),
        ParquetValue::Decimal256(x, s) => OutView::BigDecimal(decimal_text(big_int_value(x), s as int)),
        ParquetValue::List(items) => OutView::Array(expected_outs(items@)),
        ParquetValue::MapValue(pairs) => OutView::Hash(expected_pairs(pairs@)),
        ParquetValue::Record(fields) => OutView::Record(expected_fields(fields@)),
    }
}

/// `trunc_div` and `trunc_rem` split `a` into whole `b`s and a remainder
/// of the sign of `a` and less than `b` in size.
proof fn lemma_trunc_split(a: int, b: int)
    requires
        b > 0,
    ensures
        b * trunc_div(a, b) + trunc_rem(a, b) == a,
        a >= 0 ==> 0 <= trunc_rem(a, b) < b,
        a < 0 ==> -b < trunc_rem(a, b) <= 0,
{
    if a >= 0 {
        vstd::arithmetic::div_mod::lemma_fundamental_div_mod(a, b);
        vstd::arithmetic::div_mod::lemma_mod_pos_bound(a, b);
    } else {
        vstd::arithmetic::div_mod::lemma_fundamental_div_mod(-a, b);
        vstd::arithmetic::div_mod::lemma_mod_pos_bound(-a, b);
        let q = (-a) / b;
        assert(b * (-q) == -(b * q)) by (nonlinear_arith);
        assert(trunc_div(a, b) == -q);
    }
}

/// `trunc_div` and `trunc_rem` are the only split of `a` into whole `b`s
/// and a remainder of the sign of `a` smaller than `b`.
proof fn lemma_trunc_unique(a: int, b: int, q: int, r: int)
    requires
        b > 0,
        a == b * q + r,
        a >= 0 ==> 0 <= r < b,
        a < 0 ==> -b < r <= 0,
    ensures
        trunc_div(a, b) == q,
        trunc_rem(a, b) == r,
{
    if a >= 0 {
        assert(a == q * b + r) by (nonlinear_arith)
            requires
                a == b * q + r,
        ;
        vstd::arithmetic::div_mod::lemma_fundamental_div_mod_converse(a, b, q, r);
    } else {
        assert(-a == (-q) * b + (-r)) by (nonlinear_arith)
            requires
                a == b * q + r,
        ;
        vstd::arithmetic::div_mod::lemma_fundamental_div_mod_converse(-a, b, -q, -r);
    }
}

/// A `millis` time of day `m` becomes the Ruby time of day of the same
/// moment: whole hours, minutes and seconds and the rest in microseconds,
/// which add up to `m`, each part rounded toward zero with the sign of `m`
/// (minutes and seconds within an hour and a minute).
pub proof fn law_millis_time_of_day_splits(m: i32)
    ensures
        expected_out(ParquetValue::TimeMillis(m)) matches OutView::TimeToday {
            hours,
            minutes,
            seconds,
            usec,
        } && hours * 3_600_000 + minutes * 60_000 + seconds * 1000 + usec / 1000 == m && usec % 1000 == 0 && (m >= 0
            ==> 0 <= minutes < 60 && 0 <= seconds < 60 && 0 <= usec < 1_000_000) && (m < 0 ==> -60
            < minutes <= 0 && -60 < seconds <= 0 && -1_000_000 < usec <= 0),
{
    let a = m as int;
    lemma_trunc_split(a, 3_600_000);
    let h = trunc_div(a, 3_600_000);
    let r1 = trunc_rem(a, 3_600_000);
    lemma_trunc_split(r1, 60_000);
    let mi = trunc_div(r1, 60_000);
    let r2 = trunc_rem(r1, 60_000);
    lemma_trunc_unique(a, 60_000, h * 60 + mi, r2);
    lemma_trunc_split(r2, 1000);
    let se = trunc_div(r2, 1000);
    let r3 = trunc_rem(r2, 1000);
    lemma_trunc_unique(a, 1000, (h * 60 + mi) * 60 + se, r3);
    vstd::arithmetic::div_mod::lemma_div_multiples_vanish(r3, 1000);
    vstd::arithmetic::div_mod::lemma_mod_multiples_basic(r3, 1000);
}

/// A `micros` time of day `m` becomes the Ruby time of day of the same
/// moment: whole hours, minutes and seconds and the rest in microseconds,
/// which add up to `m`, each part rounded toward zero with the sign of `m`
/// (minutes and seconds within an hour and a minute).
pub proof fn law_micros_time_of_day_splits(m: i64)
    ensures
        expected_out(ParquetValue::TimeMicros(m)) matches OutView::TimeToday {
            hours,
            minutes,
            seconds,
            usec,
        } && hours * 3_600_000_000 + minutes * 60_000_000 + seconds * 1_000_000 + usec == m && (m >= 0
            ==> 0 <= minutes < 60 && 0 <= seconds < 60 && 0 <= usec < 1_000_000) && (m < 0 ==> -60
            < minutes <= 0 && -60 < seconds <= 0 && -1_000_000 < usec <= 0),
{
    let a = m as int;
    lemma_trunc_split(a, 3_600_000_000);
    let h = trunc_div(a, 3_600_000_000);
    let r1 = trunc_rem(a, 3_600_000_000);
    lemma_trunc_split(r1, 60_000_000);
    let mi = trunc_div(r1, 60_000_000);
    let r2 = trunc_rem(r1, 60_000_000);
    lemma_trunc_unique(a, 60_000_000, h * 60 + mi, r2);
    lemma_trunc_split(r2, 1_000_000);
    let se = trunc_div(r2, 1_000_000);
    let r3 = trunc_rem(r2, 1_000_000);
    lemma_trunc_unique(a, 1_000_000, (h * 60 + mi) * 60 + se, r3);
}

/// How dates and nanosecond times read from a file are split: a
/// `Date32` of `d` days is the date of `d * 86400` seconds after the
/// epoch; a `Date64` of `m` milliseconds is `Time.at` of its whole seconds
/// and, as second argument, the remaining milliseconds times a million
/// (`Time.at` reads that argument as microseconds); and a
/// `time_nanos` value `Time.at` of its whole seconds and nanoseconds, each
/// rest rounded toward zero with the sign of the value.
pub proof fn law_dates_and_times_split(d: i32, m: i64)
    ensures
        expected_out(ParquetValue::Date32(d)) == OutView::DateOfSeconds(d * 86400),
        expected_out(ParquetValue::Date64(m)) matches OutView::TimeAt {
            secs,
            sub: TimeSub::Micros(u),
            in_utc: false,
            to_utc: false,
        } && u % 1_000_000 == 0 && secs * 1000 + u / 1_000_000 == m && (m >= 0 ==> 0 <= u
            < 1_000_000_000) && (m < 0 ==> -1_000_000_000 < u <= 0),
        expected_out(ParquetValue::TimeNanos(m)) matches OutView::TimeAt {
            secs,
            sub: TimeSub::Nanos(n),
            in_utc: true,
            to_utc: false,
        } && secs * 1_000_000_000 + n == m && (m >= 0 ==> 0 <= n < 1_000_000_000) && (m < 0
            ==> -1_000_000_000 < n <= 0),
{
    lemma_trunc_split(m as int, 1000);
    lemma_trunc_split(m as int, 1_000_000_000);
    let r = trunc_rem(m as int, 1000);
    assert((r * 1_000_000) % 1_000_000 == 0) by {
        vstd::arithmetic::div_mod::lemma_mod_multiples_basic(r, 1_000_000);
    }
    assert((r * 1_000_000) / 1_000_000 == r) by {
        vstd::arithmetic::div_mod::lemma_div_multiples_vanish(r, 1_000_000);
    }
}

/// A timestamp read from a file becomes the Ruby `Time` of the same
/// instant: `Time.at` of the whole seconds and the rest of a second in the
/// column's own unit (microseconds for seconds, milliseconds and
/// microseconds, nanoseconds for nanoseconds), the rest rounded toward zero
/// with the sign of the value; taken in UTC, and converted with `.utc` when
/// the column has a time zone.
pub proof fn law_timestamps_keep_their_instant(t: i64, tz: Option<Arc<str>>)
    ensures
        expected_out(ParquetValue::TimestampSecond(t, tz)) == (OutView::TimeAt {
            secs: t as int,
            sub: TimeSub::Whole,
            in_utc: true,
            to_utc: tz is Some,
        }),
        expected_out(ParquetValue::TimestampMillis(t, tz)) matches OutView::TimeAt {
            secs,
            sub: TimeSub::Micros(u),
            in_utc: true,
            to_utc,
        } && to_utc == (tz is Some) && secs * 1_000_000 + u == t * 1000 && u % 1000 == 0 && (t >= 0
            ==> 0 <= u < 1_000_000) && (t < 0 ==> -1_000_000 < u <= 0),
        expected_out(ParquetValue::TimestampMicros(t, tz)) matches OutView::TimeAt {
            secs,
            sub: TimeSub::Micros(u),
            in_utc: true,
            to_utc,
        } && to_utc == (tz is Some) && secs * 1_000_000 + u == t && (t >= 0 ==> 0 <= u < 1_000_000)
            && (t < 0 ==> -1_000_000 < u <= 0),
        expected_out(ParquetValue::TimestampNanos(t, tz)) matches OutView::TimeAt {
            secs,
            sub: TimeSub::Nanos(n),
            in_utc: true,
            to_utc,
        } && to_utc == (tz is Some) && secs * 1_000_000_000 + n == t && (t >= 0 ==> 0 <= n
            < 1_000_000_000) && (t < 0 ==> -1_000_000_000 < n <= 0),
{
    lemma_trunc_split(t as int, 1000);
    lemma_trunc_split(t as int, 1_000_000);
    lemma_trunc_split(t as int, 1_000_000_000);
    let r = trunc_rem(t as int, 1000);
    assert((r * 1000) % 1000 == 0) by {
        vstd::arithmetic::div_mod::lemma_mod_multiples_basic(r, 1000);
    }
}

pub open spec fn expected_outs(s: Seq<ParquetValue>) -> Seq<OutView>
    decreases s,
{
    if s.len() == 0 {
        Seq::empty()
    } else {
        expected_outs(s.drop_last()).push(expected_out(s.last()))
    }
}

pub open spec fn expected_pairs(s: Seq<(ParquetValue, ParquetValue)>) -> Seq<(OutView, OutView)>
    decreases s,
{
    if s.len() == 0 {
        Seq::empty()
    } else {
        expected_pairs(s.drop_last()).push((expected_out(s.last().0), expected_out(s.last().1)))
    }
}

pub open spec fn expected_fields(s: Seq<(Arc<str>, ParquetValue)>) -> Seq<(Seq<char>, OutView)>
    decreases s,
{
    if s.len() == 0 {
        Seq::empty()
    } else {
        expected_fields(s.drop_last()).push((arc_str_text(s.last().0), expected_out(s.last().1)))
    }
}

/// Whether every decimal in a value can be shown as text within 128-bit
/// arithmetic (see `decimal_text_defined`; a `Decimal256` only needs a scale
/// other than `-128`).
pub open spec fn convertible(v: ParquetValue) -> bool
    decreases v,
{
    match v {
        ParquetValue::Decimal128(x, s) => decimal_text_defined(x, s),
        ParquetValue::Decimal256(_, s) => s != i8::MIN,
        ParquetValue::List(items) => all_convertible(items@),
        ParquetValue::MapValue(pairs) => all_pairs_convertible(pairs@),
        ParquetValue::Record(fields) => all_fields_convertible(fields@),
        _ => true,
    }
}

pub open spec fn all_convertible(s: Seq<ParquetValue>) -> bool
    decreases s,
{
    s.len() > 0 ==> all_convertible(s.drop_last()) && convertible(s.last())
}

pub open spec fn all_pairs_convertible(s: Seq<(ParquetValue, ParquetValue)>) -> bool
    decreases s,
{
    s.len() > 0 ==> all_pairs_convertible(s.drop_last()) && convertible(s.last().0) && convertible(
        s.last().1,
    )
}

pub open spec fn all_fields_convertible(s: Seq<(Arc<str>, ParquetValue)>) -> bool
    decreases s,
{
    s.len() > 0 ==> all_fields_convertible(s.drop_last()) && convertible(s.last().1)
}

proof fn lemma_all_convertible_prefix(s: Seq<ParquetValue>, i: int)
    requires
        all_convertible(s),
        0 <= i < s.len(),
    ensures
        all_convertible(s.take(i)),
        convertible(s[i]),
    decreases s.len(),
{
    if i < s.len() - 1 {
        assert(s.drop_last().take(i) =~= s.take(i));
        assert(s.drop_last()[i] == s[i]);
        lemma_all_convertible_prefix(s.drop_last(), i);
    } else {
        assert(s.drop_last() =~= s.take(i));
    }
}

proof fn lemma_all_pairs_convertible_prefix(s: Seq<(ParquetValue, ParquetValue)>, i: int)
    requires
        all_pairs_convertible(s),
        0 <= i < s.len(),
    ensures
        convertible(s[i].0),
        convertible(s[i].1),
    decreases s.len(),
{
    if i < s.len() - 1 {
        assert(s.drop_last()[i] == s[i]);
        lemma_all_pairs_convertible_prefix(s.drop_last(), i);
    }
}

proof fn lemma_all_fields_convertible_prefix(s: Seq<(Arc<str>, ParquetValue)>, i: int)
    requires
        all_fields_convertible(s),
        0 <= i < s.len(),
    ensures
        convertible(s[i].1),
    decreases s.len(),
{
    if i < s.len() - 1 {
        assert(s.drop_last()[i] == s[i]);
        lemma_all_fields_convertible_prefix(s.drop_last(), i);
    }
}

fn hex_of(d: u128) -> (c: char)
    requires
        d < 16,
    ensures
        c == hex_char(d as nat),
{
    if d < 10 {
        ((d as u8) + 48u8) as char
    } else {
        ((d as u8) - 10 + 97u8) as char
    }
}

fn push_hex(s: &mut String, x: u128, n: u32)
    ensures
        final(s)@ == old(s)@ + hex_digits(x as nat, n as nat),
    decreases n,
{
    if n > 0 {
        push_hex(s, x / 16, n - 1);
        let c = hex_of(x % 16);
        push_char(s, c);
        proof {
            assert(old(s)@ + hex_digits(x as nat, n as nat) =~= (old(s)@ + hex_digits(
                (x / 16) as nat,
                (n - 1) as nat,
            )).push(c));
        }
    } else {
        proof {
            assert(old(s)@ + hex_digits(x as nat, 0) =~= old(s)@);
        }
    }
}

/// The hyphenated lower-case text of a UUID.
pub fn uuid_string(u: u128) -> (r: String)
    ensures
        r@ == uuid_text(u),
{
    let mut h = String::new();
    push_hex(&mut h, u, 32);
    let cs = crate::text::chars_of(h.as_str());
    let ghost hd = hex_digits(u as nat, 32);
    proof {
        assert(h@ =~= hd);
        lemma_hex_digits_len(u as nat, 32);
    }
    let mut out = String::new();
    let mut j: usize = 0;
    proof {
        assert(out@ =~= Seq::new(0, |k: int| uuid_char(hd, k)));
    }
    while j < 36
        invariant
            cs@ == hd,
            hd.len() == 32,
            j <= 36,
            out@ == Seq::new(j as nat, |k: int| uuid_char(hd, k)),
        decreases 36 - j,
    {
        let c = if j == 8 || j == 13 || j == 18 || j == 23 {
            '-'
        } else if j < 8 {
            cs[j]
        } else if j < 13 {
            cs[j - 1]
        } else if j < 18 {
            cs[j - 2]
        } else if j < 23 {
            cs[j - 3]
        } else {
            cs[j - 4]
        };
        push_char(&mut out, c);
        proof {
            assert(out@ =~= Seq::new((j + 1) as nat, |k: int| uuid_char(hd, k)));
        }
        j = j + 1;
    }
    out
}

proof fn lemma_hex_digits_len(x: nat, n: nat)
    ensures
        hex_digits(x, n).len() == n,
    decreases n,
{
    if n > 0 {
        lemma_hex_digits_len(x / 16, (n - 1) as nat);
    }
}

/// `Time.at` arguments for `whole` units of `per_second` per second.
fn split_secs(whole: i64, per_second: i64) -> (r: (i64, i64))
    requires
        per_second > 0,
    ensures
        r.0 as int == trunc_div(whole as int, per_second as int),
        r.1 as int == trunc_rem(whole as int, per_second as int),
        -per_second < r.1 < per_second,
{
    let q = whole / per_second;
    let m = whole % per_second;
    proof {
        if whole >= 0 {
            assert(m as int == (whole as int) % (per_second as int));
            assert((whole as int) == (per_second as int) * ((whole as int) / (per_second as int)) + (
            whole as int) % (per_second as int)) by (nonlinear_arith)
                requires
                    per_second > 0,
            ;
            let t = (whole as int) / (per_second as int);
            assert(trunc_div(whole as int, per_second as int) == t);
            assert(trunc_rem(whole as int, per_second as int) == (whole as int) - (per_second as int) * t);
        } else {
            let a = -(whole as int);
            assert(a == (per_second as int) * (a / (per_second as int)) + a % (per_second as int)) by (
            nonlinear_arith)
                requires
                    per_second > 0,
            ;
            assert(q as int == -(a / (per_second as int)));
            assert(m as int == -(a % (per_second as int)));
            let t = a / (per_second as int);
            assert(trunc_div(whole as int, per_second as int) == -t);
            assert((per_second as int) * (-t) == -((per_second as int) * t)) by (nonlinear_arith);
            assert(trunc_rem(whole as int, per_second as int) == (whole as int) - (per_second as int) * (-t));
        }
    }
    (q, m)
}

/// The Ruby object for a Parquet value (see `expected_out`): nil, true and
/// false, Integer for every integer type, Float, strings, binary strings,
/// `Date` and `Time` objects, `BigDecimal`, and arrays and hashes of these.
pub fn parquet_to_ruby(value: &ParquetValue) -> (r: RubyOut)
    requires
        convertible(*value),
    ensures
        out_view(r) == expected_out(*value),
    decreases value, 1nat,
{
    match value {
        ParquetValue::Null => RubyOut::Nil,
        ParquetValue::Boolean(b) => RubyOut::Bool(*b),
        ParquetValue::Int8(i) => RubyOut::Integer(*i as i128),
        ParquetValue::Int16(i) => RubyOut::Integer(*i as i128),
        ParquetValue::Int32(i) => RubyOut::Integer(*i as i128),
        ParquetValue::Int64(i) => RubyOut::Integer(*i as i128),
        ParquetValue::UInt8(i) => RubyOut::Integer(*i as i128),
        ParquetValue::UInt16(i) => RubyOut::Integer(*i as i128),
        ParquetValue::UInt32(i) => RubyOut::Integer(*i as i128),
        ParquetValue::UInt64(i) => RubyOut::Integer(*i as i128),
        ParquetValue::Float16(b) => RubyOut::FloatOfF32(*b),
        ParquetValue::Float32(b) => RubyOut::FloatOfF32(*b),
        ParquetValue::Float64(b) => RubyOut::Float(*b),
        ParquetValue::String(s) => RubyOut::Str(arc_clone(s)),
        ParquetValue::Uuid(u) => RubyOut::Text(uuid_string(*u)),
        ParquetValue::Bytes(b) => RubyOut::Binary(b.clone()),
        ParquetValue::Date32(days) => RubyOut::DateOfSeconds(*days as i64 * 86400),
        ParquetValue::Date64(millis) => {
            let (secs, rem) = split_secs(*millis, 1000);
            RubyOut::TimeAt { secs, sub: TimeSub::Micros(rem * 1_000_000), in_utc: false, to_utc: false }
        },
        ParquetValue::TimeMillis(millis) => {
            let m = *millis as i64;
            let (hours, _) = split_secs(m, 3_600_000);
            let (_, in_hour) = split_secs(m, 3_600_000);
            let (minutes, _) = split_secs(in_hour, 60_000);
            let (_, in_minute) = split_secs(m, 60_000);
            let (seconds, _) = split_secs(in_minute, 1000);
            let (_, ms) = split_secs(m, 1000);
            RubyOut::TimeToday { hours, minutes, seconds, usec: ms * 1000 }
        },
        ParquetValue::TimeMicros(micros) => {
            let m = *micros;
            let (hours, in_hour) = split_secs(m, 3_600_000_000);
            let (minutes, _) = split_secs(in_hour, 60_000_000);
            let (_, in_minute) = split_secs(m, 60_000_000);
            let (seconds, _) = split_secs(in_minute, 1_000_000);
            let (_, us) = split_secs(m, 1_000_000);
            RubyOut::TimeToday { hours, minutes, seconds, usec: us }
        },
        ParquetValue::TimeNanos(nanos) => {
            let (secs, nsec) = split_secs(*nanos, 1_000_000_000);
            RubyOut::TimeAt { secs, sub: TimeSub::Nanos(nsec), in_utc: true, to_utc: false }
        },
        ParquetValue::TimestampSecond(secs, tz) => RubyOut::TimeAt {
            secs: *secs,
            sub: TimeSub::Whole,
            in_utc: true,
            to_utc: tz.is_some(),
        },
        ParquetValue::TimestampMillis(millis, tz) => {
            let (secs, rem) = split_secs(*millis, 1000);
            RubyOut::TimeAt { secs, sub: TimeSub::Micros(rem * 1000), in_utc: true, to_utc: tz.is_some() }
        },
        ParquetValue::TimestampMicros(micros, tz) => {
            let (secs, usec) = split_secs(*micros, 1_000_000);
            RubyOut::TimeAt { secs, sub: TimeSub::Micros(usec), in_utc: true, to_utc: tz.is_some() }
        },
        ParquetValue::TimestampNanos(nanos, tz) => {
            let (secs, nsec) = split_secs(*nanos, 1_000_000_000);
            RubyOut::TimeAt { secs, sub: TimeSub::Nanos(nsec), in_utc: true, to_utc: tz.is_some() }
        },
        ParquetValue::Decimal128(x, s) => RubyOut::BigDecimal(format_decimal128(*x, *s)),
        ParquetValue::Decimal256(x, s) => RubyOut::BigDecimal(format_decimal256(x, *s)),
        ParquetValue::List(items) => RubyOut::Array(list_to_ruby(items)),
        ParquetValue::MapValue(pairs) => RubyOut::Hash(map_to_ruby(pairs)),
        ParquetValue::Record(fields) => RubyOut::Record(record_to_ruby(fields)),
    }
}

fn list_to_ruby(items: &Vec<ParquetValue>) -> (r: Vec<RubyOut>)
    requires
        all_convertible(items@),
    ensures
        outs_view(r@) == expected_outs(items@),
    decreases items, 0nat,
{
    let mut out: Vec<RubyOut> = Vec::new();
    let n = items.len();
    let mut i: usize = 0;
    proof {
        assert(items@.take(0) =~= Seq::<ParquetValue>::empty());
        assert(out@ =~= Seq::<RubyOut>::empty());
    }
    while i < n
        invariant
            n == items@.len(),
            i <= n,
            all_convertible(items@),
            outs_view(out@) == expected_outs(items@.take(i as int)),
        decreases n - i,
    {
        proof {
            lemma_all_convertible_prefix(items@, i as int);
        }
        let o = parquet_to_ruby(&items[i]);
        proof {
            assert(items@.take(i + 1).drop_last() =~= items@.take(i as int));
            assert(out@.push(o).drop_last() =~= out@);
        }
        out.push(o);
        i = i + 1;
    }
    proof {
        assert(items@.take(n as int) =~= items@);
    }
    out
}

fn map_to_ruby(pairs: &Vec<(ParquetValue, ParquetValue)>) -> (r: Vec<(RubyOut, RubyOut)>)
    requires
        all_pairs_convertible(pairs@),
    ensures
        out_pairs_view(r@) == expected_pairs(pairs@),
    decreases pairs, 0nat,
{
    let mut out: Vec<(RubyOut, RubyOut)> = Vec::new();
    let n = pairs.len();
    let mut i: usize = 0;
    proof {
        assert(pairs@.take(0) =~= Seq::<(ParquetValue, ParquetValue)>::empty());
        assert(out@ =~= Seq::<(RubyOut, RubyOut)>::empty());
    }
    while i < n
        invariant
            n == pairs@.len(),
            i <= n,
            all_pairs_convertible(pairs@),
            out_pairs_view(out@) == expected_pairs(pairs@.take(i as int)),
        decreases n - i,
    {
        proof {
            lemma_all_pairs_convertible_prefix(pairs@, i as int);
        }
        let k = parquet_to_ruby(&pairs[i].0);
        let v = parquet_to_ruby(&pairs[i].1);
        proof {
            assert(pairs@.take(i + 1).drop_last() =~= pairs@.take(i as int));
            assert(out@.push((k, v)).drop_last() =~= out@);
        }
        out.push((k, v));
        i = i + 1;
    }
    proof {
        assert(pairs@.take(n as int) =~= pairs@);
    }
    out
}

fn record_to_ruby(fields: &Vec<(Arc<str>, ParquetValue)>) -> (r: Vec<(Arc<str>, RubyOut)>)
    requires
        all_fields_convertible(fields@),
    ensures
        out_fields_view(r@) == expected_fields(fields@),
    decreases fields, 0nat,
{
    let mut out: Vec<(Arc<str>, RubyOut)> = Vec::new();
    let n = fields.len();
    let mut i: usize = 0;
    proof {
        assert(fields@.take(0) =~= Seq::<(Arc<str>, ParquetValue)>::empty());
        assert(out@ =~= Seq::<(Arc<str>, RubyOut)>::empty());
    }
    while i < n
        invariant
            n == fields@.len(),
            i <= n,
            all_fields_convertible(fields@),
            out_fields_view(out@) == expected_fields(fields@.take(i as int)),
        decreases n - i,
    {
        proof {
            lemma_all_fields_convertible_prefix(fields@, i as int);
        }
        let name = arc_clone(&fields[i].0);
        let v = parquet_to_ruby(&fields[i].1);
        proof {
            assert(fields@.take(i + 1).drop_last() =~= fields@.take(i as int));
            assert(out@.push((name, v)).drop_last() =~= out@);
        }
        out.push((name, v));
        i = i + 1;
    }
    proof {
        assert(fields@.take(n as int) =~= fields@);
    }
    out
}

/// Whether every decimal of a value can be shown as text (see
/// `convertible`), so that `parquet_to_ruby` may take it.
pub fn is_convertible(value: &ParquetValue) -> (r: bool)
    ensures
        r == convertible(*value),
    decreases value, 1nat,
{
    match value {
        ParquetValue::Decimal128(x, s) => {
            let x = *x;
            let s = *s;
            if s == 0 {
                return true;
            }
            if x == i128::MIN || s < -38 || s > 38 {
                return false;
            }
            if s > 0 {
                return true;
            }
            let abs: i128 = if x < 0 {
                -x
            } else {
                x
            };
            let mut m: i128 = 1;
            let mut i: i8 = 0;
            let k: i8 = -s;
            while i < k
                invariant
                    0 <= i <= k <= 38,
                    m == crate::decimal::pow10(i as nat),
                decreases k - i,
            {
                proof {
                    crate::decimal::lemma_pow10_positive(i as nat);
                    crate::decimal::lemma_pow10_monotone((i + 1) as nat, 38);
                    crate::decimal::lemma_pow10_38();
                    assert(crate::decimal::pow10((i + 1) as nat) == 10 * crate::decimal::pow10(i as nat));
                }
                m = m * 10;
                i = i + 1;
            }
            proof {
                crate::decimal::lemma_pow10_positive(k as nat);
                assert(abs as int == crate::decimal::magnitude(x as int));
            }
            abs.checked_mul(m).is_some()
        },
        ParquetValue::Decimal256(_, s) => *s != i8::MIN,
        ParquetValue::List(items) => all_items_convertible(items),
        ParquetValue::MapValue(pairs) => all_pair_items_convertible(pairs),
        ParquetValue::Record(fields) => all_field_items_convertible(fields),
        _ => true,
    }
}

fn all_items_convertible(items: &Vec<ParquetValue>) -> (r: bool)
    ensures
        r == all_convertible(items@),
    decreases items, 0nat,
{
    let n = items.len();
    let mut i: usize = 0;
    proof {
        assert(items@.take(0) =~= Seq::<ParquetValue>::empty());
    }
    while i < n
        invariant
            n == items@.len(),
            i <= n,
            all_convertible(items@.take(i as int)),
        decreases n - i,
    {
        let ok = is_convertible(&items[i]);
        proof {
            assert(items@.take(i + 1).drop_last() =~= items@.take(i as int));
        }
        if !ok {
            proof {
                lemma_all_convertible_fails(items@, i as int);
            }
            return false;
        }
        i = i + 1;
    }
    proof {
        assert(items@.take(n as int) =~= items@);
    }
    true
}

proof fn lemma_all_convertible_fails(s: Seq<ParquetValue>, i: int)
    requires
        0 <= i < s.len(),
        !convertible(s[i]),
    ensures
        !all_convertible(s),
    decreases s.len(),
{
    if i < s.len() - 1 {
        assert(s.drop_last()[i] == s[i]);
        lemma_all_convertible_fails(s.drop_last(), i);
    }
}

fn all_pair_items_convertible(pairs: &Vec<(ParquetValue, ParquetValue)>) -> (r: bool)
    ensures
        r == all_pairs_convertible(pairs@),
    decreases pairs, 0nat,
{
    let n = pairs.len();
    let mut i: usize = 0;
    proof {
        assert(pairs@.take(0) =~= Seq::<(ParquetValue, ParquetValue)>::empty());
    }
    while i < n
        invariant
            n == pairs@.len(),
            i <= n,
            all_pairs_convertible(pairs@.take(i as int)),
        decreases n - i,
    {
        let ok = is_convertible(&pairs[i].0) && is_convertible(&pairs[i].1);
        proof {
            assert(pairs@.take(i + 1).drop_last() =~= pairs@.take(i as int));
        }
        if !ok {
            proof {
                lemma_all_pairs_convertible_fails(pairs@, i as int);
            }
            return false;
        }
        i = i + 1;
    }
    proof {
        assert(pairs@.take(n as int) =~= pairs@);
    }
    true
}

proof fn lemma_all_pairs_convertible_fails(s: Seq<(ParquetValue, ParquetValue)>, i: int)
    requires
        0 <= i < s.len(),
        !(convertible(s[i].0) && convertible(s[i].1)),
    ensures
        !all_pairs_convertible(s),
    decreases s.len(),
{
    if i < s.len() - 1 {
        assert(s.drop_last()[i] == s[i]);
        lemma_all_pairs_convertible_fails(s.drop_last(), i);
    }
}

fn all_field_items_convertible(fields: &Vec<(Arc<str>, ParquetValue)>) -> (r: bool)
    ensures
        r == all_fields_convertible(fields@),
    decreases fields, 0nat,
{
    let n = fields.len();
    let mut i: usize = 0;
    proof {
        assert(fields@.take(0) =~= Seq::<(Arc<str>, ParquetValue)>::empty());
    }
    while i < n
        invariant
            n == fields@.len(),
            i <= n,
            all_fields_convertible(fields@.take(i as int)),
        decreases n - i,
    {
        let ok = is_convertible(&fields[i].1);
        proof {
            assert(fields@.take(i + 1).drop_last() =~= fields@.take(i as int));
        }
        if !ok {
            proof {
                lemma_all_fields_convertible_fails(fields@, i as int);
            }
            return false;
        }
        i = i + 1;
    }
    proof {
        assert(fields@.take(n as int) =~= fields@);
    }
    true
}

proof fn lemma_all_fields_convertible_fails(s: Seq<(Arc<str>, ParquetValue)>, i: int)
    requires
        0 <= i < s.len(),
        !convertible(s[i].1),
    ensures
        !all_fields_convertible(s),
    decreases s.len(),
{
    if i < s.len() - 1 {
        assert(s.drop_last()[i] == s[i]);
        lemma_all_fields_convertible_fails(s.drop_last(), i);
    }
}

} // verus!
