//! The arithmetic of writing Ruby dates and times as Parquet values, and
//! the other decisions of the writer's conversions that do not need Ruby:
//! the time zone a Ruby `Time` carries, the length check of fixed-length
//! byte arrays, and where a struct field's value is found in a hash.

use crate::decimal::{int_error_message, int_error_text, trunc_div};
use crate::error::{CoreError, CoreErrorView};
use crate::rvalue::{
    clone_value, find_symbol_key, hash_get, lemma_entry_index, lemma_rpairs_len, rpairs, rv, sym,
    RValue, RView,
};
use crate::string_cache::{arc_from_string, arc_str_text};
use crate::text::{
    chars_of, int_string, int_text, nat_text, parse_int, parse_int_spec, push_char, push_int, push_nat,
    push_str, str_eq, trim, trimmed, IntErrorKind,
};
use crate::value::ParquetValue;
use vstd::prelude::*;

verus! {

broadcast use vstd::string::group_string_axioms;

/// Whether `x` is an `i64`.
pub open spec fn in_i64(x: int) -> bool {
    i64::MIN <= x <= i64::MAX
}

/// The unit a timestamp column stores.
#[derive(Clone, Copy, Debug, PartialEq, Eq, Structural)]
pub enum TimestampUnit {
    Second,
    Millis,
    Micros,
    Nanos,
}

/// How many units make a second.
pub open spec fn units_per_second(u: TimestampUnit) -> int {
    match u {
        TimestampUnit::Second => 1,
        TimestampUnit::Millis => 1000,
        TimestampUnit::Micros => 1_000_000,
        TimestampUnit::Nanos => 1_000_000_000,
    }
}

/// How many nanoseconds make a unit.
pub open spec fn nanos_per_unit(u: TimestampUnit) -> int {
    match u {
        TimestampUnit::Second => 1_000_000_000,
        TimestampUnit::Millis => 1_000_000,
        TimestampUnit::Micros => 1000,
        TimestampUnit::Nanos => 1,
    }
}

/// The count of units of a time given as whole seconds and nanoseconds
/// (the nanoseconds cut to whole units; whole seconds alone for `Second`).
pub open spec fn timestamp_count(u: TimestampUnit, secs: int, nsec: int) -> int {
    if u == TimestampUnit::Second {
        secs
    } else {
        secs * units_per_second(u) + trunc_div(nsec, nanos_per_unit(u))
    }
}

/// Whether the count of units stays within `i64`, step by step.
pub open spec fn timestamp_fits(u: TimestampUnit, secs: int, nsec: int) -> bool {
    u == TimestampUnit::Second || (in_i64(secs * units_per_second(u)) && in_i64(timestamp_count(u, secs, nsec)))
}

/// Whether a timestamp count at `unit` stays within `i64`.
pub fn timestamp_in_range(unit: TimestampUnit, secs: i64, nsec: i32) -> (r: bool)
    ensures
        r == timestamp_fits(unit, secs as int, nsec as int),
{
    let per: i64 = match unit {
        TimestampUnit::Second => {
            return true;
        },
        TimestampUnit::Millis => 1000,
        TimestampUnit::Micros => 1_000_000,
        TimestampUnit::Nanos => 1_000_000_000,
    };
    let div: i64 = match unit {
        TimestampUnit::Millis => 1_000_000,
        TimestampUnit::Micros => 1000,
        _ => 1,
    };
    match secs.checked_mul(per) {
        None => false,
        Some(w) => {
            let part = (nsec as i64) / div;
            proof {
                if nsec >= 0 {
                    assert(part as int == (nsec as int) / (div as int));
                } else {
                    assert(part as int == -((-(nsec as int)) / (div as int)));
                }
            }
            w.checked_add(part).is_some()
        },
    }
}

/// The timestamp a Ruby `Time` is written as: its count of units, and the
/// zone `UTC` when the column has a time zone (the time was converted to UTC
/// first) or none for a local timestamp.
pub fn timestamp_value(unit: TimestampUnit, secs: i64, nsec: i32, schema_has_tz: bool) -> (r: ParquetValue)
    requires
        timestamp_fits(unit, secs as int, nsec as int),
    ensures
        match r {
            ParquetValue::TimestampSecond(n, tz) => unit == TimestampUnit::Second && n == secs && (tz is Some
                <==> schema_has_tz) && (tz matches Some(z) ==> arc_str_text(z) == "UTC"@),
            ParquetValue::TimestampMillis(n, tz) => unit == TimestampUnit::Millis && n as int == timestamp_count(
                unit,
                secs as int,
                nsec as int,
            ) && (tz is Some <==> schema_has_tz) && (tz matches Some(z) ==> arc_str_text(z) == "UTC"@),
            ParquetValue::TimestampMicros(n, tz) => unit == TimestampUnit::Micros && n as int == timestamp_count(
                unit,
                secs as int,
                nsec as int,
            ) && (tz is Some <==> schema_has_tz) && (tz matches Some(z) ==> arc_str_text(z) == "UTC"@),
            ParquetValue::TimestampNanos(n, tz) => unit == TimestampUnit::Nanos && n as int == timestamp_count(
                unit,
                secs as int,
                nsec as int,
            ) && (tz is Some <==> schema_has_tz) && (tz matches Some(z) ==> arc_str_text(z) == "UTC"@),
            _ => false,
        },
{
    let tz = if schema_has_tz {
        Some(arc_from_string("UTC".to_string()))
    } else {
        None
    };
    let n = nsec as i64;
    match unit {
        TimestampUnit::Second => ParquetValue::TimestampSecond(secs, tz),
        TimestampUnit::Millis => {
            let part = n / 1_000_000;
            proof {
                if nsec >= 0 {
                    assert(part as int == (nsec as int) / 1_000_000);
                } else {
                    assert(part as int == -((-(nsec as int)) / 1_000_000));
                }
            }
            ParquetValue::TimestampMillis(secs * 1000 + part, tz)
        },
        TimestampUnit::Micros => {
            let part = n / 1000;
            proof {
                if nsec >= 0 {
                    assert(part as int == (nsec as int) / 1000);
                } else {
                    assert(part as int == -((-(nsec as int)) / 1000));
                }
            }
            ParquetValue::TimestampMicros(secs * 1_000_000 + part, tz)
        },
        TimestampUnit::Nanos => ParquetValue::TimestampNanos(secs * 1_000_000_000 + n, tz),
    }
}

/// The `Date32` of a time given in seconds since the epoch: whole days,
/// rounded toward zero, cast to `i32`.
pub fn date32_from_seconds(secs: i64) -> (r: ParquetValue)
    ensures
        r matches ParquetValue::Date32(d) && d == (trunc_div(secs as int, 86400) as i32),
{
    let days = secs / 86400;
    proof {
        if secs >= 0 {
            assert(days as int == (secs as int) / 86400);
        } else {
            assert(days as int == -((-(secs as int)) / 86400));
        }
    }
    ParquetValue::Date32(days as i32)
}

/// The `Date64` of a time given in seconds since the epoch: milliseconds.
pub fn date64_from_seconds(secs: i64) -> (r: ParquetValue)
    requires
        in_i64(secs * 1000),
    ensures
        r matches ParquetValue::Date64(m) && m == secs * 1000,
{
    ParquetValue::Date64(secs * 1000)
}

/// The seconds since midnight of a time of day.
pub open spec fn day_seconds(hour: int, min: int, sec: int) -> int {
    hour * 3600 + min * 60 + sec
}

/// Whether `(h*3600 + m*60 + s) * scale + nsec / per` stays within the
/// bounds `lo..=hi` at every step.
pub open spec fn time_of_day_fits(hour: int, min: int, sec: int, nsec: int, scale: int, per: int, lo: int, hi: int) -> bool {
    &&& lo <= hour * 3600 <= hi
    &&& lo <= min * 60 <= hi
    &&& lo <= hour * 3600 + min * 60 <= hi
    &&& lo <= day_seconds(hour, min, sec) <= hi
    &&& lo <= day_seconds(hour, min, sec) * scale <= hi
    &&& lo <= day_seconds(hour, min, sec) * scale + trunc_div(nsec, per) <= hi
}

/// The `TimeMillis` of a time of day (`i32` arithmetic).
pub fn time_millis_of_day(hour: i32, min: i32, sec: i32, nsec: i32) -> (r: ParquetValue)
    requires
        time_of_day_fits(hour as int, min as int, sec as int, nsec as int, 1000, 1_000_000, i32::MIN as int, i32::MAX as int),
    ensures
        r matches ParquetValue::TimeMillis(m) && m as int == day_seconds(hour as int, min as int, sec as int) * 1000
            + trunc_div(nsec as int, 1_000_000),
{
    let part = nsec / 1_000_000;
    proof {
        if nsec >= 0 {
            assert(part as int == (nsec as int) / 1_000_000);
        } else {
            assert(part as int == -((-(nsec as int)) / 1_000_000));
        }
    }
    ParquetValue::TimeMillis((hour * 3600 + min * 60 + sec) * 1000 + part)
}

/// The `TimeMicros` of a time of day (`i64` arithmetic).
pub fn time_micros_of_day(hour: i64, min: i64, sec: i64, nsec: i64) -> (r: ParquetValue)
    requires
        time_of_day_fits(hour as int, min as int, sec as int, nsec as int, 1_000_000, 1000, i64::MIN as int, i64::MAX as int),
    ensures
        r matches ParquetValue::TimeMicros(m) && m as int == day_seconds(hour as int, min as int, sec as int)
            * 1_000_000 + trunc_div(nsec as int, 1000),
{
    let part = nsec / 1000;
    proof {
        if nsec >= 0 {
            assert(part as int == (nsec as int) / 1000);
        } else {
            assert(part as int == -((-(nsec as int)) / 1000));
        }
    }
    ParquetValue::TimeMicros((hour * 3600 + min * 60 + sec) * 1_000_000 + part)
}

/// The `TimeNanos` of a time of day (`i64` arithmetic).
pub fn time_nanos_of_day(hour: i64, min: i64, sec: i64, nsec: i64) -> (r: ParquetValue)
    requires
        time_of_day_fits(hour as int, min as int, sec as int, nsec as int, 1_000_000_000, 1, i64::MIN as int, i64::MAX as int),
    ensures
        r matches ParquetValue::TimeNanos(m) && m as int == day_seconds(hour as int, min as int, sec as int)
            * 1_000_000_000 + nsec,
{
    ParquetValue::TimeNanos((hour * 3600 + min * 60 + sec) * 1_000_000_000 + nsec)
}

/// `{:02}` of a non-negative integer.
pub open spec fn pad2(v: nat) -> Seq<char> {
    if nat_text(v).len() >= 2 {
        nat_text(v)
    } else {
        seq!['0'] + nat_text(v)
    }
}

/// The zone a Ruby `Time` carries, from `utc?` and `utc_offset`: `UTC` for
/// a UTC time; none for a zero offset; otherwise `+HH:MM` east of UTC and
/// `-HH:MM` west of it, from the whole hours and the remaining minutes of
/// the offset's magnitude.
pub open spec fn offset_zone(is_utc: bool, offset: int) -> Option<Seq<char>> {
    if is_utc {
        Some("UTC"@)
    } else if offset == 0 {
        None
    } else {
        let a: nat = (if offset < 0 { -offset } else { offset }) as nat;
        let sign = if offset < 0 { seq!['-'] } else { seq!['+'] };
        Some(sign + pad2(a / 3600) + seq![':'] + pad2(a % 3600 / 60))
    }
}

fn push_pad2(s: &mut String, v: u32)
    ensures
        final(s)@ == old(s)@ + pad2(v as nat),
{
    if v < 10 {
        push_char(s, '0');
    }
    push_nat(s, v as u128);
    proof {
        if v < 10 {
            assert(nat_text(v as nat) =~= seq![crate::text::digit_char(v as int)]);
        } else {
            lemma_nat_text_len_two(v as nat);
        }
        assert(final(s)@ =~= old(s)@ + pad2(v as nat));
    }
}

proof fn lemma_nat_text_len_two(n: nat)
    requires
        n >= 10,
    ensures
        nat_text(n).len() >= 2,
{
    lemma_nat_text_nonempty((n / 10) as nat);
}

proof fn lemma_nat_text_nonempty(n: nat)
    ensures
        nat_text(n).len() >= 1,
    decreases n,
{
    if n >= 10 {
        lemma_nat_text_nonempty((n / 10) as nat);
    }
}

/// The zone of a Ruby `Time` (see `offset_zone`).
pub fn utc_offset_zone(is_utc: bool, offset: i32) -> (r: Option<String>)
    requires
        offset != i32::MIN,
    ensures
        match r {
            Some(t) => offset_zone(is_utc, offset as int) == Some(t@),
            None => offset_zone(is_utc, offset as int) is None,
        },
{
    if is_utc {
        return Some("UTC".to_string());
    }
    if offset == 0 {
        return None;
    }
    let abs: i32 = if offset < 0 {
        -offset
    } else {
        offset
    };
    let hours: u32 = (abs / 3600) as u32;
    let minutes: u32 = ((abs % 3600) / 60) as u32;
    let mut t = String::new();
    if offset < 0 {
        push_char(&mut t, '-');
    } else {
        push_char(&mut t, '+');
    }
    push_pad2(&mut t, hours);
    push_char(&mut t, ':');
    push_pad2(&mut t, minutes);
    proof {
        let a: nat = (if offset < 0 { -(offset as int) } else { offset as int }) as nat;
        assert(hours as nat == a / 3600);
        assert(minutes as nat == a % 3600 / 60);
    }
    Some(t)
}

/// The message for a byte string of the wrong length.
pub open spec fn fixed_len_error_text(len: int, got: nat) -> Seq<char> {
    "Expected "@ + int_text(len) + " bytes, got "@ + nat_text(got)
}

/// The fixed-length byte array of `bytes`, which must hold exactly `len`
/// bytes.
pub fn fixed_len_bytes(bytes: Vec<u8>, len: i32) -> (r: Result<ParquetValue, CoreError>)
    ensures
        len >= 0 && bytes@.len() == len ==> (r matches Ok(ParquetValue::Bytes(b)) && b@ == bytes@),
        !(len >= 0 && bytes@.len() == len) ==> (r matches Err(e) && e@ == CoreErrorView::Conversion(
            fixed_len_error_text(len as int, bytes@.len()),
        )),
{
    if len >= 0 && bytes.len() == len as usize {
        Ok(ParquetValue::Bytes(bytes))
    } else {
        let mut m = "Expected ".to_string();
        push_int(&mut m, len as i128);
        push_str(&mut m, " bytes, got ");
        push_nat(&mut m, bytes.len() as u128);
        proof {
            assert(m@ =~= fixed_len_error_text(len as int, bytes@.len()));
        }
        Err(CoreError::Conversion(m))
    }
}

/// The value of a struct field in a hash: under the field's name as a
/// symbol, else under its name as a string, else nil.
pub open spec fn struct_field_spec(pairs: Seq<(RView, RView)>, name: Seq<char>) -> RView {
    match hash_get(pairs, sym(name)) {
        Some(v) => v,
        None => match hash_get(pairs, RView::Str(name)) {
            Some(v) => v,
            None => RView::Nil,
        },
    }
}

/// Find the entry whose key is the string `name`.
fn find_string_key(pairs: &Vec<(RValue, RValue)>, name: &str) -> (r: Option<usize>)
    ensures
        match r {
            Some(i) => i as int == crate::rvalue::entry_index(rpairs(pairs@), RView::Str(name@)),
            None => crate::rvalue::entry_index(rpairs(pairs@), RView::Str(name@)) == -1,
        },
{
    let ghost ps = rpairs(pairs@);
    proof {
        lemma_rpairs_len(pairs@);
        lemma_entry_index(ps, RView::Str(name@));
    }
    let mut i: usize = 0;
    while i < pairs.len()
        invariant
            ps == rpairs(pairs@),
            ps.len() == pairs@.len(),
            i <= pairs@.len(),
            forall|j: int| 0 <= j < i ==> ps[j].0 != RView::Str(name@),
            forall|j: int| 0 <= j < pairs@.len() ==> #[trigger] ps[j] == (rv(pairs@[j].0), rv(pairs@[j].1)),
        decreases pairs.len() - i,
    {
        let hit = match &pairs[i].0 {
            RValue::Str(s) => str_eq(s.as_str(), name),
            _ => false,
        };
        if hit {
            proof {
                lemma_entry_index(ps, RView::Str(name@));
                let e = crate::rvalue::entry_index(ps, RView::Str(name@));
                if e == -1 {
                    assert(ps[i as int].0 != RView::Str(name@));
                } else if e < i {
                    assert(ps[e].0 != RView::Str(name@));
                } else if e > i {
                    assert(ps[i as int].0 != RView::Str(name@));
                }
            }
            return Some(i);
        }
        i = i + 1;
    }
    None
}

/// The value of the struct field `name` in a hash (see `struct_field_spec`).
pub fn struct_field_value(pairs: &Vec<(RValue, RValue)>, name: &str) -> (r: RValue)
    ensures
        r@ == struct_field_spec(rpairs(pairs@), name@),
{
    proof {
        lemma_rpairs_len(pairs@);
        lemma_entry_index(rpairs(pairs@), sym(name@));
        lemma_entry_index(rpairs(pairs@), RView::Str(name@));
    }
    match find_symbol_key(pairs, name) {
        Some(i) => clone_value(&pairs[i].1),
        None => match find_string_key(pairs, name) {
            Some(i) => clone_value(&pairs[i].1),
            None => RValue::Nil,
        },
    }
}

/// What `uuid::Uuid::parse_str` gives for a text: the UUID's 128-bit
/// value, or the text of the parse error.
pub uninterp spec fn uuid_parse_result(text: Seq<char>) -> Result<u128, Seq<char>>;

/// `uuid::Uuid::parse_str` with `Uuid::as_u128` and the error's `Display`:
/// the value of the UUID a text spells (in any of the forms the crate
/// reads), or the message of the parse error. The forms and messages are
/// left to the crate; the result is named by `uuid_parse_result`.
#[verifier::external_body]
fn parse_uuid(text: &str) -> (r: Result<u128, String>)
    ensures
        match r {
            Ok(u) => uuid_parse_result(text@) == Ok::<u128, Seq<char>>(u),
            Err(m) => uuid_parse_result(text@) == Err::<u128, Seq<char>>(m@),
        },
{
    match uuid::Uuid::parse_str(text) {
        Ok(u) => Ok(u.as_u128()),
        Err(e) => Err(e.to_string()),
    }
}

/// The last `n` bytes of `x`, most significant first.
pub open spec fn be_bytes(x: nat, n: nat) -> Seq<u8>
    decreases n,
{
    if n == 0 {
        Seq::empty()
    } else {
        be_bytes(x / 256, (n - 1) as nat).push((x % 256) as u8)
    }
}

fn push_be_bytes(out: &mut Vec<u8>, x: u128, n: u32)
    ensures
        final(out)@ == old(out)@ + be_bytes(x as nat, n as nat),
    decreases n,
{
    if n > 0 {
        push_be_bytes(out, x / 256, n - 1);
        out.push((x % 256) as u8);
        proof {
            assert(old(out)@ + be_bytes(x as nat, n as nat) =~= (old(out)@ + be_bytes(
                (x / 256) as nat,
                (n - 1) as nat,
            )).push((x % 256) as u8));
        }
    } else {
        proof {
            assert(old(out)@ + be_bytes(x as nat, 0) =~= old(out)@);
        }
    }
}

/// The 16 bytes a UUID column stores for a UUID text (big-endian), or the
/// conversion error `Failed to parse UUID: ...`.
pub fn uuid_bytes(text: &str) -> (r: Result<ParquetValue, CoreError>)
    ensures
        match uuid_parse_result(text@) {
            Ok(u) => r matches Ok(ParquetValue::Bytes(b)) && b@ == be_bytes(u as nat, 16),
            Err(m) => r matches Err(e) && e@ == CoreErrorView::Conversion("Failed to parse UUID: "@ + m),
        },
{
    match parse_uuid(text) {
        Ok(u) => {
            let mut out: Vec<u8> = Vec::new();
            push_be_bytes(&mut out, u, 16);
            proof {
                assert(out@ =~= be_bytes(u as nat, 16));
            }
            Ok(ParquetValue::Bytes(out))
        },
        Err(m) => {
            let mut msg = "Failed to parse UUID: ".to_string();
            push_str(&mut msg, m.as_str());
            Err(CoreError::Conversion(msg))
        },
    }
}

/// The text of a failed conversion of `shown` into an integer column.
pub open spec fn convert_error_text(shown: Seq<char>, k: IntErrorKind) -> Seq<char> {
    "Failed to convert "@ + shown + " to target type: "@ + int_error_text(k)
}

/// The text of numeric text `s` that does not parse for an integer column.
pub open spec fn numeric_error_text(s: Seq<char>, k: IntErrorKind) -> Seq<char> {
    "Failed to parse '"@ + s + "' as numeric: "@ + int_error_text(k)
}

/// The value of `text` for an integer column with range `lo..=hi`, as
/// `str::parse` reads it.
fn column_integer(text: &str, lo: i128, hi: i128, signed: bool) -> (r: Result<i128, IntErrorKind>)
    requires
        lo <= 0 <= hi,
    ensures
        match r {
            Ok(v) => parse_int_spec(text@, lo as int, hi as int, signed) == Ok::<int, IntErrorKind>(v as int),
            Err(k) => parse_int_spec(text@, lo as int, hi as int, signed) == Err::<int, IntErrorKind>(k),
        },
{
    let cs = chars_of(text);
    parse_int(cs.as_slice(), lo, hi, signed)
}

/// A Ruby `Integer` (read as an `i64`) for an integer column with range
/// `lo..=hi` that could not take it directly: its decimal text is parsed
/// as the column's type, which fails past the range (and, for an unsigned
/// type, on a `-`).
pub fn integer_for_column(i: i64, lo: i128, hi: i128, signed: bool) -> (r: Result<i128, CoreError>)
    requires
        lo <= 0 <= hi,
    ensures
        match parse_int_spec(int_text(i as int), lo as int, hi as int, signed) {
            Ok(v) => r matches Ok(x) && x == v,
            Err(k) => r matches Err(e) && e@ == CoreErrorView::Conversion(
                convert_error_text(int_text(i as int), k),
            ),
        },
{
    let text = int_string(i as i128);
    match column_integer(text.as_str(), lo, hi, signed) {
        Ok(v) => Ok(v),
        Err(k) => {
            let mut m = "Failed to convert ".to_string();
            push_str(&mut m, text.as_str());
            push_str(&mut m, " to target type: ");
            push_str(&mut m, int_error_message(k));
            Err(CoreError::Conversion(m))
        },
    }
}

/// A Ruby `Float`, by the text Rust writes for it, for an integer column
/// with range `lo..=hi`: the text is parsed as the column's type.
pub fn float_text_for_column(text: &str, lo: i128, hi: i128, signed: bool) -> (r: Result<i128, CoreError>)
    requires
        lo <= 0 <= hi,
    ensures
        match parse_int_spec(text@, lo as int, hi as int, signed) {
            Ok(v) => r matches Ok(x) && x == v,
            Err(k) => r matches Err(e) && e@ == CoreErrorView::Conversion(convert_error_text(text@, k)),
        },
{
    match column_integer(text, lo, hi, signed) {
        Ok(v) => Ok(v),
        Err(k) => {
            let mut m = "Failed to convert ".to_string();
            push_str(&mut m, text);
            push_str(&mut m, " to target type: ");
            push_str(&mut m, int_error_message(k));
            Err(CoreError::Conversion(m))
        },
    }
}

/// A Ruby `String` for an integer column with range `lo..=hi`: the text,
/// trimmed, is parsed as the column's type.
pub fn numeric_text_for_column(s: &str, lo: i128, hi: i128, signed: bool) -> (r: Result<i128, CoreError>)
    requires
        lo <= 0 <= hi,
    ensures
        match parse_int_spec(trim(s@), lo as int, hi as int, signed) {
            Ok(v) => r matches Ok(x) && x == v,
            Err(k) => r matches Err(e) && e@ == CoreErrorView::Conversion(numeric_error_text(s@, k)),
        },
{
    let cs = chars_of(s);
    let t = trimmed(cs.as_slice());
    match parse_int(t.as_slice(), lo, hi, signed) {
        Ok(v) => Ok(v),
        Err(k) => {
            let mut m = "Failed to parse '".to_string();
            push_str(&mut m, s);
            push_str(&mut m, "' as numeric: ");
            push_str(&mut m, int_error_message(k));
            Err(CoreError::Conversion(m))
        },
    }
}

} // verus!
