//! The Parquet value a writer infers for a Ruby value when no schema says
//! what it is.
//!
//! Integers become `Int64`, floats `Float64`, strings and booleans their
//! Parquet counterparts, arrays lists and hashes maps (entry by entry, in
//! the hash's order), a `Time` a millisecond timestamp with its zone, a
//! `BigDecimal` a `Decimal128` of scale 10, and anything else the string
//! `to_s` gives. The bindings read each Ruby object into a `RubyInput`
//! (recording as `Unreadable` a value whose reading already failed), and
//! `infer_value` makes the Parquet value, stopping at the first error.

use crate::convert::{in_i64, offset_zone, utc_offset_zone};
use crate::decimal::{
    decimal128_from_text, decimal128_overflows, decimal128_spec, has_exponent, has_exponent_marker,
    parse_decimal128, trunc_div, DecimalOutcome,
};
use crate::error::{CoreError, CoreErrorView};
use crate::string_cache::{arc_from_string, arc_str_text};
use crate::text::{chars_of, string_of, trim, trimmed};
use crate::value::ParquetValue;
use triomphe::Arc;
use vstd::prelude::*;

verus! {

broadcast use vstd::string::group_string_axioms;

/// The zone of a Ruby `Time` as read: UTC, an offset in seconds from UTC,
/// or the message of a failed read.
#[derive(Debug, PartialEq)]
pub enum ZoneInput {
    Utc,
    Offset(i32),
    Unreadable(String),
}

/// A Ruby value as the inference reads it.
#[derive(Debug, PartialEq)]
pub enum RubyInput {
    /// An `Integer` that fits `i64`.
    Integer(i64),
    /// A `Float`, by its bits.
    Float(u64),
    Str(String),
    Bool(bool),
    Array(Vec<RubyInput>),
    /// A `Hash`, by its entries in order.
    Hash(Vec<(RubyInput, RubyInput)>),
    /// A `Time`: `to_i`, `nsec` and its zone.
    Time { secs: i64, nsec: i32, zone: ZoneInput },
    /// A `BigDecimal`, by its `to_s("F")` text (with any exponent written
    /// out by the bindings).
    BigDecimal(String),
    /// Any other object, by its `to_s`.
    Other(String),
    /// A value whose reading failed, with the message of the failure.
    Unreadable(String),
}

/// How inferring a value ends: with a value, with a conversion error, with
/// an arithmetic overflow (which panics in the Ruby extension), or at decimal
/// text that still holds an exponent.
pub enum InferOutcome {
    Fine,
    Fails(CoreErrorView),
    Panics,
    NeedsNormalizing,
}

/// Whether inference stops short of a value or an error.
pub open spec fn stops(o: InferOutcome) -> bool {
    o is Panics || o is NeedsNormalizing
}

/// The milliseconds of a `Time`: `to_i * 1000 + nsec / 1_000_000`.
pub open spec fn time_millis(secs: int, nsec: int) -> int {
    secs * 1000 + trunc_div(nsec, 1_000_000)
}

/// Whether a zone is UTC, and its offset.
pub open spec fn zone_utc(zone: ZoneInput) -> bool {
    zone is Utc
}

pub open spec fn zone_offset(zone: ZoneInput) -> int {
    match zone {
        ZoneInput::Offset(o) => o as int,
        _ => 0,
    }
}

/// How a `Time` ends: the milliseconds are computed first, then the zone.
pub open spec fn time_outcome(secs: int, nsec: int, zone: ZoneInput) -> InferOutcome {
    if !in_i64(secs * 1000) || !in_i64(time_millis(secs, nsec)) {
        InferOutcome::Panics
    } else {
        match zone {
            ZoneInput::Utc => InferOutcome::Fine,
            ZoneInput::Offset(o) => if o == i32::MIN {
                InferOutcome::Panics
            } else {
                InferOutcome::Fine
            },
            ZoneInput::Unreadable(m) => InferOutcome::Fails(CoreErrorView::Conversion(m@)),
        }
    }
}

/// How a `BigDecimal` ends: its trimmed text is read at scale 10.
pub open spec fn decimal_outcome(t: Seq<char>) -> InferOutcome {
    if has_exponent(t) {
        InferOutcome::NeedsNormalizing
    } else {
        match decimal128_spec(trim(t), 10) {
            DecimalOutcome::Overflow => InferOutcome::Panics,
            DecimalOutcome::Failed(e) => InferOutcome::Fails(e),
            DecimalOutcome::Value(_) => InferOutcome::Fine,
        }
    }
}

/// How inferring `v` ends.
pub open spec fn outcome(v: RubyInput) -> InferOutcome
    decreases v,
{
    match v {
        RubyInput::Time { secs, nsec, zone } => time_outcome(secs as int, nsec as int, zone),
        RubyInput::BigDecimal(t) => decimal_outcome(t@),
        RubyInput::Unreadable(m) => InferOutcome::Fails(CoreErrorView::Conversion(m@)),
        RubyInput::Array(items) => seq_outcome(items@),
        RubyInput::Hash(pairs) => pairs_outcome(pairs@),
        _ => InferOutcome::Fine,
    }
}

/// How inferring the items of `s` in order ends: at the first item that
/// does not give a value.
pub open spec fn seq_outcome(s: Seq<RubyInput>) -> InferOutcome
    decreases s,
{
    if s.len() == 0 {
        InferOutcome::Fine
    } else {
        let before = seq_outcome(s.drop_last());
        if before is Fine {
            outcome(s.last())
        } else {
            before
        }
    }
}

/// How inferring a hash entry ends: key and value are both inferred, then
/// the key's error comes before the value's.
pub open spec fn entry_outcome(k: InferOutcome, v: InferOutcome) -> InferOutcome {
    if stops(k) {
        k
    } else if stops(v) {
        v
    } else if k is Fails {
        k
    } else {
        v
    }
}

/// How inferring the entries of `s` in order ends.
pub open spec fn pairs_outcome(s: Seq<(RubyInput, RubyInput)>) -> InferOutcome
    decreases s,
{
    if s.len() == 0 {
        InferOutcome::Fine
    } else {
        let before = pairs_outcome(s.drop_last());
        if before is Fine {
            entry_outcome(outcome(s.last().0), outcome(s.last().1))
        } else {
            before
        }
    }
}

/// The text of an optional shared string.
pub open spec fn opt_arc_text(o: Option<Arc<str>>) -> Option<Seq<char>> {
    match o {
        Some(a) => Some(arc_str_text(a)),
        None => None,
    }
}

/// Whether `p` is the value inferred for `v` (where inference gives one).
pub open spec fn infers(v: RubyInput, p: ParquetValue) -> bool
    decreases v,
{
    match v {
        RubyInput::Integer(i) => p == ParquetValue::Int64(i),
        RubyInput::Float(b) => p == ParquetValue::Float64(b),
        RubyInput::Str(s) => p matches ParquetValue::String(a) && arc_str_text(a) == s@,
        RubyInput::Bool(b) => p == ParquetValue::Boolean(b),
        RubyInput::Array(items) => p matches ParquetValue::List(ps) && infers_seq(items@, ps@),
        RubyInput::Hash(pairs) => p matches ParquetValue::MapValue(qs) && infers_pairs(pairs@, qs@),
        RubyInput::Time { secs, nsec, zone } => p matches ParquetValue::TimestampMillis(m, tz) && m
            == time_millis(secs as int, nsec as int) && opt_arc_text(tz) == offset_zone(
            zone_utc(zone),
            zone_offset(zone),
        ),
        RubyInput::BigDecimal(t) => p matches ParquetValue::Decimal128(x, scale) && scale == 10
            && decimal128_spec(trim(t@), 10) == DecimalOutcome::Value(x as int),
        RubyInput::Other(t) => p matches ParquetValue::String(a) && arc_str_text(a) == t@,
        RubyInput::Unreadable(_) => false,
    }
}

/// Whether `ps` are the values inferred for `s`, item by item.
pub open spec fn infers_seq(s: Seq<RubyInput>, ps: Seq<ParquetValue>) -> bool
    decreases s,
{
    if s.len() == 0 {
        ps.len() == 0
    } else {
        ps.len() == s.len() && infers_seq(s.drop_last(), ps.drop_last()) && infers(s.last(), ps.last())
    }
}

/// Whether `qs` are the entries inferred for `s`, entry by entry.
pub open spec fn infers_pairs(s: Seq<(RubyInput, RubyInput)>, qs: Seq<(ParquetValue, ParquetValue)>) -> bool
    decreases s,
{
    if s.len() == 0 {
        qs.len() == 0
    } else {
        qs.len() == s.len() && infers_pairs(s.drop_last(), qs.drop_last()) && infers(
            s.last().0,
            qs.last().0,
        ) && infers(s.last().1, qs.last().1)
    }
}

/// Once a prefix of `s` ends without a value, so does `s`, the same way.
proof fn lemma_seq_outcome_prefix(s: Seq<RubyInput>, j: int)
    requires
        0 <= j <= s.len(),
        !(seq_outcome(s.take(j)) is Fine),
    ensures
        seq_outcome(s) == seq_outcome(s.take(j)),
    decreases s.len(),
{
    if j == s.len() {
        assert(s.take(j) =~= s);
    } else {
        assert(s.drop_last().take(j) =~= s.take(j));
        lemma_seq_outcome_prefix(s.drop_last(), j);
    }
}

/// Once a prefix of `s` ends without a value, so does `s`, the same way.
proof fn lemma_pairs_outcome_prefix(s: Seq<(RubyInput, RubyInput)>, j: int)
    requires
        0 <= j <= s.len(),
        !(pairs_outcome(s.take(j)) is Fine),
    ensures
        pairs_outcome(s) == pairs_outcome(s.take(j)),
    decreases s.len(),
{
    if j == s.len() {
        assert(s.take(j) =~= s);
    } else {
        assert(s.drop_last().take(j) =~= s.take(j));
        lemma_pairs_outcome_prefix(s.drop_last(), j);
    }
}

/// The zone text of a `Time`, as a shared string.
fn zone_arc(zone: &ZoneInput) -> (r: Result<Option<Arc<str>>, CoreError>)
    requires
        zone matches ZoneInput::Offset(o) ==> o != i32::MIN,
    ensures
        match r {
            Ok(tz) => !(zone is Unreadable) && opt_arc_text(tz) == offset_zone(
                zone_utc(*zone),
                zone_offset(*zone),
            ),
            Err(e) => zone matches ZoneInput::Unreadable(m) && e@ == CoreErrorView::Conversion(m@),
        },
{
    let text = match zone {
        ZoneInput::Utc => utc_offset_zone(true, 0),
        ZoneInput::Offset(o) => utc_offset_zone(false, *o),
        ZoneInput::Unreadable(m) => {
            return Err(CoreError::Conversion(m.clone()));
        },
    };
    match text {
        Some(t) => Ok(Some(arc_from_string(t))),
        None => Ok(None),
    }
}

/// The Parquet value inferred for `v`, or the first conversion error met
/// on the way (see `outcome`).
pub fn infer_value(v: &RubyInput) -> (r: Result<ParquetValue, CoreError>)
    requires
        !stops(outcome(*v)),
    ensures
        match r {
            Ok(p) => outcome(*v) is Fine && infers(*v, p),
            Err(e) => outcome(*v) == InferOutcome::Fails(e@),
        },
    decreases v, 1nat,
{
    match v {
        RubyInput::Integer(i) => Ok(ParquetValue::Int64(*i)),
        RubyInput::Float(b) => Ok(ParquetValue::Float64(*b)),
        RubyInput::Str(s) => Ok(ParquetValue::String(arc_from_string(s.clone()))),
        RubyInput::Bool(b) => Ok(ParquetValue::Boolean(*b)),
        RubyInput::Other(t) => Ok(ParquetValue::String(arc_from_string(t.clone()))),
        RubyInput::Unreadable(m) => Err(CoreError::Conversion(m.clone())),
        RubyInput::Time { secs, nsec, zone } => {
            let scaled: i64 = *secs * 1000;
            let ns: i64 = *nsec as i64;
            let sub: i64 = ns / 1_000_000;
            proof {
                if ns >= 0 {
                    assert(sub as int == (ns as int) / 1_000_000);
                } else {
                    assert(sub as int == -((-(ns as int)) / 1_000_000));
                }
            }
            let millis: i64 = scaled + sub;
            let tz = zone_arc(zone)?;
            Ok(ParquetValue::TimestampMillis(millis, tz))
        },
        RubyInput::BigDecimal(t) => {
            let x = parse_decimal128(t.as_str(), 38, 10)?;
            Ok(ParquetValue::Decimal128(x, 10))
        },
        RubyInput::Array(items) => {
            let ps = infer_values(items)?;
            Ok(ParquetValue::List(ps))
        },
        RubyInput::Hash(pairs) => {
            let qs = infer_pairs(pairs)?;
            Ok(ParquetValue::MapValue(qs))
        },
    }
}

/// The values inferred for `items` in order, or the first error.
fn infer_values(items: &Vec<RubyInput>) -> (r: Result<Vec<ParquetValue>, CoreError>)
    requires
        !stops(seq_outcome(items@)),
    ensures
        match r {
            Ok(ps) => seq_outcome(items@) is Fine && infers_seq(items@, ps@),
            Err(e) => seq_outcome(items@) == InferOutcome::Fails(e@),
        },
    decreases items, 0nat,
{
    let n = items.len();
    let mut out: Vec<ParquetValue> = Vec::new();
    let mut i: usize = 0;
    proof {
        assert(items@.take(0) =~= Seq::<RubyInput>::empty());
    }
    while i < n
        invariant
            n == items@.len(),
            i <= n,
            !stops(seq_outcome(items@)),
            seq_outcome(items@.take(i as int)) is Fine,
            infers_seq(items@.take(i as int), out@),
        decreases n - i,
    {
        proof {
            assert(items@.take(i + 1).drop_last() =~= items@.take(i as int));
            assert(items@.take(i + 1).last() == items@[i as int]);
            assert(seq_outcome(items@.take(i + 1)) == outcome(items@[i as int]));
            if !(outcome(items@[i as int]) is Fine) {
                lemma_seq_outcome_prefix(items@, i + 1);
            }
        }
        let p = infer_value(&items[i]);
        match p {
            Err(e) => {
                return Err(e);
            },
            Ok(p) => {
                proof {
                    assert((out@.push(p)).drop_last() =~= out@);
                }
                out.push(p);
            },
        }
        i = i + 1;
    }
    proof {
        assert(items@.take(n as int) =~= items@);
    }
    Ok(out)
}

/// The entries inferred for `pairs` in order, or the first error.
fn infer_pairs(pairs: &Vec<(RubyInput, RubyInput)>) -> (r: Result<
    Vec<(ParquetValue, ParquetValue)>,
    CoreError,
>)
    requires
        !stops(pairs_outcome(pairs@)),
    ensures
        match r {
            Ok(qs) => pairs_outcome(pairs@) is Fine && infers_pairs(pairs@, qs@),
            Err(e) => pairs_outcome(pairs@) == InferOutcome::Fails(e@),
        },
    decreases pairs, 0nat,
{
    let n = pairs.len();
    let mut out: Vec<(ParquetValue, ParquetValue)> = Vec::new();
    let mut i: usize = 0;
    proof {
        assert(pairs@.take(0) =~= Seq::<(RubyInput, RubyInput)>::empty());
    }
    while i < n
        invariant
            n == pairs@.len(),
            i <= n,
            !stops(pairs_outcome(pairs@)),
            pairs_outcome(pairs@.take(i as int)) is Fine,
            infers_pairs(pairs@.take(i as int), out@),
        decreases n - i,
    {
        let ghost ko = outcome(pairs@[i as int].0);
        let ghost vo = outcome(pairs@[i as int].1);
        proof {
            assert(pairs@.take(i + 1).drop_last() =~= pairs@.take(i as int));
            assert(pairs@.take(i + 1).last() == pairs@[i as int]);
            assert(pairs_outcome(pairs@.take(i + 1)) == entry_outcome(ko, vo));
            if !(entry_outcome(ko, vo) is Fine) {
                lemma_pairs_outcome_prefix(pairs@, i + 1);
            }
        }
        let k = infer_value(&pairs[i].0);
        let w = infer_value(&pairs[i].1);
        match (k, w) {
            (Err(e), _) => {
                return Err(e);
            },
            (Ok(_), Err(e)) => {
                return Err(e);
            },
            (Ok(a), Ok(b)) => {
                proof {
                    assert((out@.push((a, b))).drop_last() =~= out@);
                }
                out.push((a, b));
            },
        }
        i = i + 1;
    }
    proof {
        assert(pairs@.take(n as int) =~= pairs@);
    }
    Ok(out)
}

/// How inferring ends, without the error's text.
#[derive(Clone, Copy, Debug, PartialEq, Eq, Structural)]
enum Progress {
    Fine,
    Fails,
    Stops,
}

spec fn progress_of(o: InferOutcome) -> Progress {
    match o {
        InferOutcome::Fine => Progress::Fine,
        InferOutcome::Fails(_) => Progress::Fails,
        _ => Progress::Stops,
    }
}

/// How inferring `v` ends.
fn progress(v: &RubyInput) -> (r: Progress)
    ensures
        r == progress_of(outcome(*v)),
    decreases v, 1nat,
{
    match v {
        RubyInput::Time { secs, nsec, zone } => {
            let ns: i64 = *nsec as i64;
            let sub: i64 = ns / 1_000_000;
            proof {
                if ns >= 0 {
                    assert(sub as int == (ns as int) / 1_000_000);
                } else {
                    assert(sub as int == -((-(ns as int)) / 1_000_000));
                }
            }
            match secs.checked_mul(1000) {
                None => Progress::Stops,
                Some(scaled) => match scaled.checked_add(sub) {
                    None => Progress::Stops,
                    Some(_) => match zone {
                        ZoneInput::Utc => Progress::Fine,
                        ZoneInput::Offset(o) => if *o == i32::MIN {
                            Progress::Stops
                        } else {
                            Progress::Fine
                        },
                        ZoneInput::Unreadable(_) => Progress::Fails,
                    },
                },
            }
        },
        RubyInput::BigDecimal(t) => {
            if has_exponent_marker(t.as_str()) {
                return Progress::Stops;
            }
            let cs = chars_of(t.as_str());
            let tt = string_of(trimmed(cs.as_slice()).as_slice());
            if decimal128_overflows(tt.as_str(), 10) {
                Progress::Stops
            } else {
                match decimal128_from_text(tt.as_str(), 10) {
                    Ok(_) => Progress::Fine,
                    Err(_) => Progress::Fails,
                }
            }
        },
        RubyInput::Unreadable(_) => Progress::Fails,
        RubyInput::Array(items) => seq_progress(items),
        RubyInput::Hash(pairs) => pairs_progress(pairs),
        _ => Progress::Fine,
    }
}

/// How inferring the items of `items` in order ends.
fn seq_progress(items: &Vec<RubyInput>) -> (r: Progress)
    ensures
        r == progress_of(seq_outcome(items@)),
    decreases items, 0nat,
{
    let n = items.len();
    let mut i: usize = 0;
    proof {
        assert(items@.take(0) =~= Seq::<RubyInput>::empty());
    }
    while i < n
        invariant
            n == items@.len(),
            i <= n,
            seq_outcome(items@.take(i as int)) is Fine,
        decreases n - i,
    {
        proof {
            assert(items@.take(i + 1).drop_last() =~= items@.take(i as int));
            assert(items@.take(i + 1).last() == items@[i as int]);
            assert(seq_outcome(items@.take(i + 1)) == outcome(items@[i as int]));
        }
        let p = progress(&items[i]);
        if p != Progress::Fine {
            proof {
                lemma_seq_outcome_prefix(items@, i + 1);
            }
            return p;
        }
        i = i + 1;
    }
    proof {
        assert(items@.take(n as int) =~= items@);
    }
    Progress::Fine
}

/// How inferring the entries of `pairs` in order ends.
fn pairs_progress(pairs: &Vec<(RubyInput, RubyInput)>) -> (r: Progress)
    ensures
        r == progress_of(pairs_outcome(pairs@)),
    decreases pairs, 0nat,
{
    let n = pairs.len();
    let mut i: usize = 0;
    proof {
        assert(pairs@.take(0) =~= Seq::<(RubyInput, RubyInput)>::empty());
    }
    while i < n
        invariant
            n == pairs@.len(),
            i <= n,
            pairs_outcome(pairs@.take(i as int)) is Fine,
        decreases n - i,
    {
        let ghost ko = outcome(pairs@[i as int].0);
        let ghost vo = outcome(pairs@[i as int].1);
        proof {
            assert(pairs@.take(i + 1).drop_last() =~= pairs@.take(i as int));
            assert(pairs@.take(i + 1).last() == pairs@[i as int]);
            assert(pairs_outcome(pairs@.take(i + 1)) == entry_outcome(ko, vo));
        }
        let pk = progress(&pairs[i].0);
        let pv = progress(&pairs[i].1);
        let p = if pk == Progress::Stops {
            pk
        } else if pv == Progress::Stops {
            pv
        } else if pk == Progress::Fails {
            pk
        } else {
            pv
        };
        proof {
            assert(p == progress_of(entry_outcome(ko, vo)));
        }
        if p != Progress::Fine {
            proof {
                lemma_pairs_outcome_prefix(pairs@, i + 1);
            }
            return p;
        }
        i = i + 1;
    }
    proof {
        assert(pairs@.take(n as int) =~= pairs@);
    }
    Progress::Fine
}

/// Whether inferring `v` would stop short of a value or an error: at an
/// arithmetic overflow, or at decimal text that still holds an exponent.
/// `infer_value` takes the values for which this is false.
pub fn infer_stops(v: &RubyInput) -> (r: bool)
    ensures
        r == stops(outcome(*v)),
{
    progress(v) == Progress::Stops
}

} // verus!
