//! Decimal values: the text of a scaled 128-bit decimal and the parsing of
//! decimal text into the scaled integer that Parquet stores.

use crate::error::{CoreError, CoreErrorView};
use crate::text::{
    chars_of, contains_char, digits_spec, int_text, nat_text, only_position, parse_int, parse_int_spec, push_char, push_nat,
    push_str, slice_vec, split_two, string_of, trim, trim_end, trim_start, trimmed, digit_value, is_ascii_digit, IntErrorKind,
};
use vstd::prelude::*;

verus! {

broadcast use vstd::string::group_string_axioms;

/// `10` to the power `n`.
pub open spec fn pow10(n: nat) -> int
    decreases n,
{
    if n == 0 {
        1
    } else {
        10 * pow10((n - 1) as nat)
    }
}

pub proof fn lemma_pow10_positive(n: nat)
    ensures
        pow10(n) >= 1,
    decreases n,
{
    if n > 0 {
        lemma_pow10_positive((n - 1) as nat);
    }
}

pub proof fn lemma_pow10_monotone(a: nat, b: nat)
    requires
        a <= b,
    ensures
        pow10(a) <= pow10(b),
    decreases b,
{
    if a < b {
        lemma_pow10_monotone(a, (b - 1) as nat);
        lemma_pow10_positive((b - 1) as nat);
    }
}

pub proof fn lemma_pow10_add(a: nat, b: nat)
    ensures
        pow10(a + b) == pow10(a) * pow10(b),
    decreases b,
{
    if b > 0 {
        lemma_pow10_add(a, (b - 1) as nat);
        assert(pow10(a + b) == 10 * pow10((a + b - 1) as nat));
        assert((a + b - 1) as nat == a + (b - 1) as nat);
        assert(pow10(a) * pow10(b) == pow10(a) * (10 * pow10((b - 1) as nat)));
        assert(pow10(a) * (10 * pow10((b - 1) as nat)) == 10 * (pow10(a) * pow10((b - 1) as nat))) by (nonlinear_arith);
    }
}

/// The largest power of ten an `i128` holds is `10^38`.
pub proof fn lemma_pow10_38()
    ensures
        pow10(38) == 100000000000000000000000000000000000000int,
        pow10(39) == 1000000000000000000000000000000000000000int,
{
    reveal_with_fuel(pow10, 40);
}

/// Whether `x` is an `i128`.
pub open spec fn in_i128(x: int) -> bool {
    i128::MIN <= x <= i128::MAX
}

/// `a / b` rounded toward zero, as Rust divides integers (`b > 0`).
pub open spec fn trunc_div(a: int, b: int) -> int {
    if a >= 0 {
        a / b
    } else {
        -((-a) / b)
    }
}

/// The text of `ParseIntError`.
pub open spec fn int_error_text(k: IntErrorKind) -> Seq<char> {
    match k {
        IntErrorKind::Empty => "cannot parse integer from empty string"@,
        IntErrorKind::InvalidDigit => "invalid digit found in string"@,
        IntErrorKind::PosOverflow => "number too large to fit in target type"@,
        IntErrorKind::NegOverflow => "number too small to fit in target type"@,
    }
}

/// `s` without its leading `c`s (`trim_start_matches(c)`).
pub open spec fn strip_leading(s: Seq<char>, c: char) -> Seq<char>
    decreases s.len(),
{
    if s.len() > 0 && s[0] == c {
        strip_leading(s.drop_first(), c)
    } else {
        s
    }
}

/// The integer and fraction texts of an unsigned decimal text, or `None`
/// when it holds more than one `.`.
pub open spec fn decimal_pieces(abs: Seq<char>) -> Option<(Seq<char>, Seq<char>)> {
    if !abs.contains('.') {
        Some((abs, Seq::empty()))
    } else {
        split_two(abs, '.')
    }
}

/// `n` cast to `i8` (wrapping).
pub open spec fn wrap_i8(n: nat) -> int {
    let m = n % 256;
    if m >= 128 {
        m - 256
    } else {
        m as int
    }
}

/// What parsing decimal text gives: the scaled value, a conversion error, or
/// an arithmetic overflow of 128-bit integers.
pub enum DecimalOutcome {
    Value(int),
    Failed(CoreErrorView),
    Overflow,
}

/// The scaled value of the integer part `iv` and fraction `fv` (of `cs`
/// digits, after the cast to `i8`) at `scale`, as 128-bit arithmetic
/// computes it: the fraction is padded or cut to `scale` digits.
pub open spec fn scaled_value(iv: int, fv: int, cs: int, scale: int, neg: bool) -> DecimalOutcome {
    if !(0 <= scale <= 38) || !(0 <= cs <= 38) {
        DecimalOutcome::Overflow
    } else {
        let sf = pow10(scale as nat);
        let head = iv * sf;
        let tail = if cs <= scale {
            fv * (sf / pow10(cs as nat))
        } else {
            trunc_div(fv, pow10((cs - scale) as nat))
        };
        let sum = head + tail;
        if !in_i128(head) || !in_i128(tail) || !in_i128(sum) {
            DecimalOutcome::Overflow
        } else if neg {
            if !in_i128(-sum) {
                DecimalOutcome::Overflow
            } else {
                DecimalOutcome::Value(-sum)
            }
        } else {
            DecimalOutcome::Value(sum)
        }
    }
}

/// What decimal text (without an exponent) gives at `scale`: a leading `-`
/// makes it negative; leading `-` and then `+` signs are dropped; the text
/// splits at a `.` into an integer part (empty meaning `0`) and a fraction.
pub open spec fn decimal128_spec(t: Seq<char>, scale: i8) -> DecimalOutcome {
    let neg = t.len() > 0 && t[0] == '-';
    let abs = strip_leading(strip_leading(t, '-'), '+');
    match decimal_pieces(abs) {
        None => DecimalOutcome::Failed(CoreErrorView::Conversion("Invalid decimal format"@)),
        Some((ip0, fp)) => {
            let ip = if ip0.len() == 0 {
                "0"@
            } else {
                ip0
            };
            if scale < 0 {
                DecimalOutcome::Failed(CoreErrorView::Conversion("Negative scale not supported"@))
            } else {
                match parse_int_spec(ip, i128::MIN as int, i128::MAX as int, true) {
                    Err(k) => DecimalOutcome::Failed(
                        CoreErrorView::Conversion("Failed to parse integer part: "@ + int_error_text(k)),
                    ),
                    Ok(iv) => {
                        let fr = if fp.len() == 0 {
                            Ok(0int)
                        } else {
                            parse_int_spec(fp, i128::MIN as int, i128::MAX as int, true)
                        };
                        match fr {
                            Err(k) => DecimalOutcome::Failed(
                                CoreErrorView::Conversion("Failed to parse fractional part: "@ + int_error_text(k)),
                            ),
                            Ok(fv) => scaled_value(iv, fv, wrap_i8(fp.len()), scale as int, neg),
                        }
                    },
                }
            }
        },
    }
}

/// Whether decimal text holds an exponent marker (`e` or `E`), which sends
/// it through floating point first.
pub open spec fn has_exponent(t: Seq<char>) -> bool {
    t.contains('e') || t.contains('E')
}

/// Whether `s` holds an exponent marker.
pub fn has_exponent_marker(s: &str) -> (r: bool)
    ensures
        r == has_exponent(s@),
{
    let cs = chars_of(s);
    let mut i: usize = 0;
    while i < cs.len()
        invariant
            cs@ == s@,
            i <= cs@.len(),
            forall|j: int| 0 <= j < i ==> cs@[j] != 'e' && cs@[j] != 'E',
        decreases cs.len() - i,
    {
        if cs[i] == 'e' || cs[i] == 'E' {
            proof {
                assert(s@[i as int] == cs@[i as int]);
            }
            return true;
        }
        i = i + 1;
    }
    false
}

pub(crate) fn int_error_message(k: IntErrorKind) -> (r: &'static str)
    ensures
        r@ == int_error_text(k),
{
    match k {
        IntErrorKind::Empty => "cannot parse integer from empty string",
        IntErrorKind::InvalidDigit => "invalid digit found in string",
        IntErrorKind::PosOverflow => "number too large to fit in target type",
        IntErrorKind::NegOverflow => "number too small to fit in target type",
    }
}

/// The index of the first character of `cs[from..]` that is not `c`.
fn skip_leading(cs: &Vec<char>, from: usize, c: char) -> (r: usize)
    requires
        from <= cs@.len(),
    ensures
        from <= r <= cs@.len(),
        cs@.subrange(r as int, cs@.len() as int) == strip_leading(cs@.subrange(from as int, cs@.len() as int), c),
{
    let n = cs.len();
    let mut i = from;
    while i < n && cs[i] == c
        invariant
            n == cs@.len(),
            from <= i <= n,
            strip_leading(cs@.subrange(from as int, n as int), c) == strip_leading(cs@.subrange(i as int, n as int), c),
        decreases n - i,
    {
        proof {
            assert(cs@.subrange(i + 1, n as int) =~= cs@.subrange(i as int, n as int).drop_first());
        }
        i = i + 1;
    }
    i
}

/// `10^n` for `n <= 38`.
fn pow10_i128(n: u32) -> (r: i128)
    requires
        n <= 38,
    ensures
        r == pow10(n as nat),
{
    let mut r: i128 = 1;
    let mut i: u32 = 0;
    while i < n
        invariant
            i <= n <= 38,
            r == pow10(i as nat),
        decreases n - i,
    {
        proof {
            lemma_pow10_positive(i as nat);
            lemma_pow10_monotone((i + 1) as nat, 38);
            lemma_pow10_38();
            assert(pow10((i + 1) as nat) == 10 * pow10(i as nat));
        }
        r = r * 10;
        i = i + 1;
    }
    r
}

/// The sign, integer text and fraction text of decimal text, or the error
/// for more than one `.`.
fn decimal_split(text: &Vec<char>) -> (r: Result<(bool, Vec<char>, Vec<char>), CoreError>)
    ensures
        match r {
            Ok((neg, ip, fp)) => {
                &&& neg == (text@.len() > 0 && text@[0] == '-')
                &&& decimal_pieces(strip_leading(strip_leading(text@, '-'), '+')) == Some((ip@, fp@))
            },
            Err(e) => {
                &&& decimal_pieces(strip_leading(strip_leading(text@, '-'), '+')) is None
                &&& e@ == CoreErrorView::Conversion("Invalid decimal format"@)
            },
        },
{
    let neg = text.len() > 0 && text[0] == '-';
    let abs = strip_signs(text);
    let n = abs.len();
    match only_position(abs.as_slice(), '.') {
        Some(i) => {
            proof {
                assert(split_two(abs@, '.') is Some);
                assert(abs@.contains('.'));
            }
            let ip = slice_vec(&abs, 0, i);
            let fp = slice_vec(&abs, i + 1, n);
            proof {
                assert(ip@ =~= abs@.take(i as int));
                assert(fp@ =~= abs@.skip(i + 1));
            }
            Ok((neg, ip, fp))
        },
        None => {
            if contains_char(&abs, '.') {
                return Err(CoreError::Conversion("Invalid decimal format".to_string()));
            }
            proof {
                assert(abs@.subrange(0, abs@.len() as int) =~= abs@);
            }
            Ok((neg, slice_vec(&abs, 0, abs.len()), Vec::new()))
        },
    }
}

/// `text` without its leading `-` signs and then its leading `+` signs.
fn strip_signs(text: &Vec<char>) -> (r: Vec<char>)
    ensures
        r@ == strip_leading(strip_leading(text@, '-'), '+'),
{
    let n = text.len();
    let a = skip_leading(text, 0, '-');
    let b = skip_leading(text, a, '+');
    proof {
        assert(text@.subrange(0, n as int) =~= text@);
    }
    slice_vec(text, b, n)
}

/// The scaled value, or `Err` when 128-bit arithmetic overflows.
fn scale_parts(iv: i128, fv: i128, cs: i16, scale: i8, neg: bool) -> (r: Result<i128, ()>)
    ensures
        match r {
            Ok(v) => scaled_value(iv as int, fv as int, cs as int, scale as int, neg) == DecimalOutcome::Value(v as int),
            Err(_) => scaled_value(iv as int, fv as int, cs as int, scale as int, neg) is Overflow,
        },
{
    if scale < 0 || scale > 38 || cs < 0 || cs > 38 {
        return Err(());
    }
    let sf = pow10_i128(scale as u32);
    let ghost gsf = pow10(scale as nat);
    assert(sf == gsf);
    assert(pow10((scale as int) as nat) == gsf);
    proof {
        lemma_pow10_positive(scale as nat);
    }
    let head = match iv.checked_mul(sf) {
        Some(h) => h,
        None => {
            assert(!in_i128(iv as int * gsf));
            assert(scaled_value(iv as int, fv as int, cs as int, scale as int, neg) is Overflow);
            return Err(());
        },
    };
    let ghost gtail = if cs <= scale {
        fv * (gsf / pow10(cs as nat))
    } else {
        trunc_div(fv as int, pow10((cs - scale) as nat))
    };
    let tail: i128 = if cs <= scale as i16 {
        let csf = pow10_i128(cs as u32);
        proof {
            lemma_pow10_positive(cs as nat);
            assert((cs as u32) as nat == cs as nat);
            assert(pow10(cs as nat) == csf);
        }
        let ratio = sf / csf;
        proof {
            assert(ratio as int == (sf as int) / (csf as int));
            assert(ratio as int == gsf / pow10(cs as nat));
        }
        match fv.checked_mul(ratio) {
            Some(t) => t,
            None => {
                assert(!in_i128(gtail));
                assert(scaled_value(iv as int, fv as int, cs as int, scale as int, neg) is Overflow);
                return Err(());
            },
        }
    } else {
        let adj = pow10_i128((cs - scale as i16) as u32);
        proof {
            lemma_pow10_positive((cs - scale) as nat);
            assert(pow10((cs - scale) as nat) == adj);
            lemma_pow10_monotone(1, (cs - scale) as nat);
            assert(pow10(1) == 10) by {
                reveal_with_fuel(pow10, 2);
            }
        }
        if fv >= 0 {
            let d = fv / adj;
            proof {
                assert(d as int == (fv as int) / (adj as int));
            }
            d
        } else {
            let ua: u128 = if fv == i128::MIN {
                170141183460469231731687303715884105728u128
            } else {
                (-fv) as u128
            };
            let q = ua / (adj as u128);
            proof {
                assert(q <= ua / 10) by (nonlinear_arith)
                    requires
                        adj >= 10,
                        q == ua / (adj as u128),
                ;
                assert(ua as int == -(fv as int));
                assert(q as int == (-(fv as int)) / (adj as int));
            }
            -(q as i128)
        }
    };
    assert(tail == gtail);
    let sum = match head.checked_add(tail) {
        Some(s) => s,
        None => {
            assert(!in_i128(head + tail));
            assert(scaled_value(iv as int, fv as int, cs as int, scale as int, neg) is Overflow);
            return Err(());
        },
    };
    if neg {
        if sum == i128::MIN {
            return Err(());
        }
        Ok(-sum)
    } else {
        Ok(sum)
    }
}

/// The outcome of parsing decimal text that has no exponent.
fn decimal128_outcome(text: &Vec<char>, scale: i8) -> (r: Result<Result<i128, CoreError>, ()>)
    ensures
        match r {
            Ok(Ok(v)) => decimal128_spec(text@, scale) == DecimalOutcome::Value(v as int),
            Ok(Err(e)) => decimal128_spec(text@, scale) == DecimalOutcome::Failed(e@),
            Err(_) => decimal128_spec(text@, scale) is Overflow,
        },
{
    let (neg, ip0, fp) = match decimal_split(text) {
        Ok(p) => p,
        Err(e) => {
            return Ok(Err(e));
        },
    };
    let ip: Vec<char> = if ip0.len() == 0 {
        let mut z: Vec<char> = Vec::new();
        z.push('0');
        proof {
            assert(z@ =~= "0"@) by {
                reveal_strlit("0");
            }
        }
        z
    } else {
        ip0
    };
    if scale < 0 {
        return Ok(Err(CoreError::Conversion("Negative scale not supported".to_string())));
    }
    let iv = match parse_int(ip.as_slice(), i128::MIN, i128::MAX, true) {
        Ok(v) => v,
        Err(k) => {
            let mut m = "Failed to parse integer part: ".to_string();
            push_str(&mut m, int_error_message(k));
            return Ok(Err(CoreError::Conversion(m)));
        },
    };
    let fv: i128 = if fp.len() == 0 {
        0
    } else {
        match parse_int(fp.as_slice(), i128::MIN, i128::MAX, true) {
            Ok(v) => v,
            Err(k) => {
                let mut m = "Failed to parse fractional part: ".to_string();
                push_str(&mut m, int_error_message(k));
                return Ok(Err(CoreError::Conversion(m)));
            },
        }
    };
    let m256 = fp.len() % 256;
    let cs: i16 = if m256 >= 128 {
        m256 as i16 - 256
    } else {
        m256 as i16
    };
    proof {
        assert(cs as int == wrap_i8(fp@.len()));
    }
    match scale_parts(iv, fv, cs, scale, neg) {
        Ok(v) => Ok(Ok(v)),
        Err(_) => Err(()),
    }
}

/// Whether parsing `text` at `scale` overflows 128-bit arithmetic.
pub fn decimal128_overflows(text: &str, scale: i8) -> (r: bool)
    ensures
        r == (decimal128_spec(text@, scale) is Overflow),
{
    let cs = chars_of(text);
    decimal128_outcome(&cs, scale).is_err()
}

/// The scaled `i128` of decimal text with no exponent (see
/// `decimal128_spec`); digits beyond `scale` are cut off.
pub fn decimal128_from_text(text: &str, scale: i8) -> (r: Result<i128, CoreError>)
    requires
        !(decimal128_spec(text@, scale) is Overflow),
    ensures
        match r {
            Ok(v) => decimal128_spec(text@, scale) == DecimalOutcome::Value(v as int),
            Err(e) => decimal128_spec(text@, scale) == DecimalOutcome::Failed(e@),
        },
{
    let cs = chars_of(text);
    match decimal128_outcome(&cs, scale) {
        Ok(r) => r,
        Err(_) => Err(CoreError::Conversion("Decimal value out of range".to_string())),
    }
}

/// Parse decimal text into the scaled value of a `Decimal128(precision,
/// scale)`: the text is trimmed, then read as `decimal128_spec` says.
/// Text with an exponent goes through floating point first, which the
/// caller does (see `has_exponent_marker`).
pub fn parse_decimal128(s: &str, precision: u8, scale: i8) -> (r: Result<i128, CoreError>)
    requires
        !has_exponent(s@),
        !(decimal128_spec(trim(s@), scale) is Overflow),
    ensures
        match r {
            Ok(v) => decimal128_spec(trim(s@), scale) == DecimalOutcome::Value(v as int),
            Err(e) => decimal128_spec(trim(s@), scale) == DecimalOutcome::Failed(e@),
        },
{
    let cs = chars_of(s);
    let t = trimmed(cs.as_slice());
    match decimal128_outcome(&t, scale) {
        Ok(r) => r,
        Err(_) => Err(CoreError::Conversion("Decimal value out of range".to_string())),
    }
}

/// `-` for a negative value, nothing otherwise.
pub open spec fn sign_text(neg: bool) -> Seq<char> {
    if neg {
        seq!['-']
    } else {
        Seq::empty()
    }
}

/// `t` with zeros in front up to `width` characters (`{:0>width$}`).
pub open spec fn zero_pad(t: Seq<char>, width: nat) -> Seq<char> {
    if t.len() >= width {
        t
    } else {
        Seq::new((width - t.len()) as nat, |i: int| '0') + t
    }
}

/// The magnitude of an integer.
pub open spec fn magnitude(v: int) -> nat {
    if v < 0 {
        (-v) as nat
    } else {
        v as nat
    }
}

/// The text of the decimal `value * 10^-scale`: the integer digits, and for
/// a positive scale a `.` and exactly `scale` fraction digits.
pub open spec fn decimal_text(value: int, scale: int) -> Seq<char> {
    if scale == 0 {
        int_text(value)
    } else if scale > 0 {
        let d = pow10(scale as nat);
        sign_text(value < 0) + nat_text((magnitude(value) as int / d) as nat) + seq!['.'] + zero_pad(
            nat_text((magnitude(value) as int % d) as nat),
            scale as nat,
        )
    } else {
        sign_text(value < 0) + nat_text((magnitude(value) * pow10((-scale) as nat)) as nat)
    }
}

/// The inputs on which formatting stays within 128-bit arithmetic: any value
/// at scale 0; otherwise a value other than `i128::MIN`, a scale of at most
/// 38 digits either way, and for a negative scale a product that fits.
pub open spec fn decimal_text_defined(value: i128, scale: i8) -> bool {
    ||| scale == 0
    ||| {
        &&& value != i128::MIN
        &&& -38 <= scale <= 38
        &&& scale < 0 ==> magnitude(value as int) * pow10((-scale) as nat) <= i128::MAX
    }
}

/// The text of the `Decimal128` value `value` at `scale`, as `BigDecimal`
/// reads it (see `decimal_text`).
pub fn format_decimal128(value: i128, scale: i8) -> (r: String)
    requires
        decimal_text_defined(value, scale),
    ensures
        r@ == decimal_text(value as int, scale as int),
{
    if scale == 0 {
        return crate::text::int_string(value);
    }
    let abs: i128 = if value < 0 {
        -value
    } else {
        value
    };
    let mut out = String::new();
    if value < 0 {
        push_char(&mut out, '-');
    }
    let ghost head = out@;
    proof {
        assert(head =~= sign_text(value < 0));
    }
    if scale > 0 {
        let d = pow10_i128(scale as u32);
        proof {
            lemma_pow10_positive(scale as nat);
        }
        let ip = abs / d;
        let fp = abs % d;
        proof {
            assert(ip as int == magnitude(value as int) as int / pow10(scale as nat));
            assert(fp as int == magnitude(value as int) as int % pow10(scale as nat));
        }
        push_nat(&mut out, ip as u128);
        push_char(&mut out, '.');
        let ft = crate::text::nat_string(fp as u128);
        let digits = chars_of(ft.as_str());
        let width = scale as usize;
        let ghost mid = out@;
        if digits.len() < width {
            let mut j: usize = 0;
            let k = width - digits.len();
            while j < k
                invariant
                    j <= k,
                    out@ == mid + Seq::new(j as nat, |i: int| '0'),
                decreases k - j,
            {
                push_char(&mut out, '0');
                proof {
                    assert(mid + Seq::new((j + 1) as nat, |i: int| '0') =~= (mid + Seq::new(j as nat, |i: int| '0')).push('0'));
                }
                j = j + 1;
            }
        }
        push_str(&mut out, ft.as_str());
        proof {
            let z = zero_pad(nat_text(fp as nat), scale as nat);
            assert(out@ =~= mid + z);
            assert(out@ =~= decimal_text(value as int, scale as int));
        }
    } else {
        let m = pow10_i128((-scale) as u32);
        proof {
            assert(((-scale) as u32) as nat == (-scale) as nat);
            lemma_pow10_positive((-scale) as nat);
            assert(abs as int == magnitude(value as int));
            assert(abs * m >= 0) by (nonlinear_arith)
                requires
                    abs >= 0,
                    m >= 1,
            ;
        }
        let p = abs * m;
        push_nat(&mut out, p as u128);
        proof {
            assert(out@ =~= decimal_text(value as int, scale as int));
        }
    }
    out
}

#[verifier::external_type_specification]
#[verifier::external_body]
pub struct ExBigInt(num::BigInt);

/// The integer a `num::BigInt` holds.
pub uninterp spec fn big_int_value(b: num::BigInt) -> int;

/// `<i32 as Into<BigInt>>`: the big integer holding `x`.
#[verifier::external_body]
fn big_from_i32(x: i32) -> (r: num::BigInt)
    ensures
        big_int_value(r) == x as int,
{
    num::BigInt::from(x)
}

/// `Signed::abs`: the magnitude.
#[verifier::external_body]
fn big_abs(b: &num::BigInt) -> (r: num::BigInt)
    ensures
        big_int_value(r) == magnitude(big_int_value(*b)) as int,
{
    num::Signed::abs(b)
}

/// `Signed::is_negative`: whether the value is below zero.
#[verifier::external_body]
fn big_is_negative(b: &num::BigInt) -> (r: bool)
    ensures
        r == (big_int_value(*b) < 0),
{
    num::Signed::is_negative(b)
}

/// `BigInt::pow`: the value to the power `e`.
#[verifier::external_body]
fn big_pow(b: &num::BigInt, e: u32) -> (r: num::BigInt)
    ensures
        big_int_value(r) == vstd::arithmetic::power::pow(big_int_value(*b), e as nat),
{
    b.pow(e)
}

/// `&BigInt / &BigInt`, which rounds toward zero; only used with a positive
/// divisor here.
#[verifier::external_body]
fn big_div(a: &num::BigInt, b: &num::BigInt) -> (r: num::BigInt)
    requires
        big_int_value(*b) > 0,
    ensures
        big_int_value(r) == trunc_div(big_int_value(*a), big_int_value(*b)),
{
    a / b
}

/// `&BigInt % &BigInt`, the remainder of the division toward zero; only
/// used with a positive divisor here.
#[verifier::external_body]
fn big_rem(a: &num::BigInt, b: &num::BigInt) -> (r: num::BigInt)
    requires
        big_int_value(*b) > 0,
    ensures
        big_int_value(r) == big_int_value(*a) - big_int_value(*b) * trunc_div(big_int_value(*a), big_int_value(*b)),
{
    a % b
}

/// `BigInt * BigInt`: the product.
#[verifier::external_body]
fn big_mul(a: num::BigInt, b: num::BigInt) -> (r: num::BigInt)
    ensures
        big_int_value(r) == big_int_value(a) * big_int_value(b),
{
    a * b
}

/// `BigInt::to_string`: the decimal text, with a `-` for a negative value.
#[verifier::external_body]
fn big_to_string(b: &num::BigInt) -> (r: String)
    ensures
        r@ == int_text(big_int_value(*b)),
{
    b.to_string()
}

proof fn lemma_pow_is_pow10(n: nat)
    ensures
        vstd::arithmetic::power::pow(10, n) == pow10(n),
    decreases n,
{
    reveal(vstd::arithmetic::power::pow);
    if n > 0 {
        lemma_pow_is_pow10((n - 1) as nat);
    }
}

/// `10^n` as a big integer.
fn big_ten_pow(n: u32) -> (r: num::BigInt)
    ensures
        big_int_value(r) == pow10(n as nat),
{
    let ten = big_from_i32(10);
    let r = big_pow(&ten, n);
    proof {
        lemma_pow_is_pow10(n as nat);
    }
    r
}

/// The text of the `Decimal256` value `value` at `scale`, as `BigDecimal`
/// reads it (see `decimal_text`).
pub fn format_decimal256(value: &num::BigInt, scale: i8) -> (r: String)
    requires
        scale != i8::MIN,
    ensures
        r@ == decimal_text(big_int_value(*value), scale as int),
{
    if scale == 0 {
        return big_to_string(value);
    }
    let abs = big_abs(value);
    let neg = big_is_negative(value);
    let mut out = String::new();
    if neg {
        push_char(&mut out, '-');
    }
    let ghost v = big_int_value(*value);
    let ghost mag = magnitude(v) as int;
    proof {
        assert(out@ =~= sign_text(v < 0));
    }
    if scale > 0 {
        let divisor = big_ten_pow(scale as u32);
        proof {
            lemma_pow10_positive(scale as nat);
        }
        let integer_part = big_div(&abs, &divisor);
        let fractional_part = big_rem(&abs, &divisor);
        proof {
            let d = pow10(scale as nat);
            assert(big_int_value(integer_part) == mag / d);
            assert(mag == d * (mag / d) + mag % d) by (nonlinear_arith)
                requires
                    d > 0,
            ;
            assert(big_int_value(fractional_part) == mag % d);
        }
        let int_text_s = big_to_string(&integer_part);
        push_str(&mut out, int_text_s.as_str());
        push_char(&mut out, '.');
        let frac_str = big_to_string(&fractional_part);
        let digits = chars_of(frac_str.as_str());
        let width = scale as usize;
        let ghost mid = out@;
        if digits.len() < width {
            let padding = width - digits.len();
            let mut j: usize = 0;
            while j < padding
                invariant
                    j <= padding,
                    out@ == mid + Seq::new(j as nat, |i: int| '0'),
                decreases padding - j,
            {
                push_char(&mut out, '0');
                proof {
                    assert(mid + Seq::new((j + 1) as nat, |i: int| '0') =~= (mid + Seq::new(j as nat, |i: int| '0')).push('0'));
                }
                j = j + 1;
            }
        }
        push_str(&mut out, frac_str.as_str());
        proof {
            let d = pow10(scale as nat);
            assert(mag / d >= 0);
            assert(mag % d >= 0);
            assert(int_text(mag / d) == nat_text((mag / d) as nat));
            assert(int_text(mag % d) == nat_text((mag % d) as nat));
            assert(out@ =~= decimal_text(v, scale as int));
        }
    } else {
        let multiplier = big_ten_pow((-scale) as u32);
        proof {
            assert(((-scale) as u32) as nat == (-scale) as nat);
            lemma_pow10_positive((-scale) as nat);
        }
        let p = big_mul(abs, multiplier);
        let ptext = big_to_string(&p);
        push_str(&mut out, ptext.as_str());
        proof {
            let m = pow10((-scale) as nat);
            assert(mag * m >= 0) by (nonlinear_arith)
                requires
                    mag >= 0,
                    m >= 1,
            ;
            assert(int_text(mag * m) == nat_text((mag * m) as nat));
            assert(out@ =~= decimal_text(v, scale as int));
        }
    }
    out
}

/// Whether every character is an ASCII digit.
pub open spec fn all_digits(s: Seq<char>) -> bool {
    forall|i: int| 0 <= i < s.len() ==> crate::text::is_ascii_digit(#[trigger] s[i])
}

proof fn lemma_nat_text_digits(n: nat)
    ensures
        all_digits(nat_text(n)),
        nat_text(n).len() >= 1,
    decreases n,
{
    if n >= 10 {
        lemma_nat_text_digits(n / 10);
        let t = nat_text(n / 10).push(crate::text::digit_char((n % 10) as int));
        assert forall|i: int| 0 <= i < t.len() implies crate::text::is_ascii_digit(#[trigger] t[i]) by {
            if i < t.len() - 1 {
                assert(t[i] == nat_text(n / 10)[i]);
            }
        }
    }
}

proof fn lemma_nat_text_len_bound(n: nat, k: nat)
    requires
        k >= 1,
        n < pow10(k),
    ensures
        nat_text(n).len() <= k,
    decreases n,
{
    if n >= 10 {
        assert(k >= 2) by {
            if k == 1 {
                reveal_with_fuel(pow10, 2);
            }
        }
        assert(pow10(k) == 10 * pow10((k - 1) as nat));
        assert(n / 10 < pow10((k - 1) as nat));
        lemma_nat_text_len_bound(n / 10, (k - 1) as nat);
    }
}

proof fn lemma_digits_push(acc: int, s: Seq<char>, c: char, lo: int, hi: int)
    ensures
        digits_spec(acc, s.push(c), lo, hi, false) == match digits_spec(acc, s, lo, hi, false) {
            Ok(x) => digits_spec(x, seq![c], lo, hi, false),
            Err(e) => Err(e),
        },
    decreases s.len(),
{
    if s.len() == 0 {
        assert(s.push(c) =~= seq![c]);
        assert(seq![c].drop_first() =~= Seq::<char>::empty());
    } else {
        assert(s.push(c).drop_first() =~= s.drop_first().push(c));
        assert(s.push(c)[0] == s[0]);
        if crate::text::is_ascii_digit(s[0]) {
            let next = acc * 10 + crate::text::digit_value(s[0]);
            if lo <= next <= hi {
                lemma_digits_push(next, s.drop_first(), c, lo, hi);
            }
        }
    }
}

proof fn lemma_digits_nat_text(n: nat)
    requires
        n <= i128::MAX,
    ensures
        digits_spec(0, nat_text(n), i128::MIN as int, i128::MAX as int, false) == Ok::<int, IntErrorKind>(n as int),
    decreases n,
{
    let lo = i128::MIN as int;
    let hi = i128::MAX as int;
    let c = crate::text::digit_char((n % 10) as int);
    assert(crate::text::is_ascii_digit(c));
    assert(crate::text::digit_value(c) == n % 10);
    reveal_with_fuel(digits_spec, 3);
    if n < 10 {
        assert(nat_text(n) =~= seq![c]);
        assert(seq![c].drop_first() =~= Seq::<char>::empty());
    } else {
        lemma_digits_nat_text(n / 10);
        lemma_digits_push(0, nat_text(n / 10), c, lo, hi);
        assert(seq![c].drop_first() =~= Seq::<char>::empty());
        assert((n / 10) * 10 + (n % 10) == n);
    }
}

proof fn lemma_parse_nat_text(n: nat)
    requires
        n <= i128::MAX,
    ensures
        parse_int_spec(nat_text(n), i128::MIN as int, i128::MAX as int, true) == Ok::<int, IntErrorKind>(n as int),
{
    lemma_nat_text_digits(n);
    lemma_digits_nat_text(n);
    assert(crate::text::is_ascii_digit(nat_text(n)[0]));
}

proof fn lemma_digits_leading_zeros(k: nat, t: Seq<char>)
    ensures
        digits_spec(0, Seq::new(k, |i: int| '0') + t, i128::MIN as int, i128::MAX as int, false) == digits_spec(
            0,
            t,
            i128::MIN as int,
            i128::MAX as int,
            false,
        ),
    decreases k,
{
    if k > 0 {
        let z = Seq::new(k, |i: int| '0') + t;
        assert(z[0] == '0');
        assert(z.drop_first() =~= Seq::new((k - 1) as nat, |i: int| '0') + t);
        lemma_digits_leading_zeros((k - 1) as nat, t);
    } else {
        assert(Seq::new(0, |i: int| '0') + t =~= t);
    }
}

proof fn lemma_parse_padded(n: nat, width: nat)
    requires
        n <= i128::MAX,
    ensures
        parse_int_spec(zero_pad(nat_text(n), width), i128::MIN as int, i128::MAX as int, true) == Ok::<
            int,
            IntErrorKind,
        >(n as int),
        all_digits(zero_pad(nat_text(n), width)),
        zero_pad(nat_text(n), width).len() >= 1,
{
    lemma_nat_text_digits(n);
    lemma_digits_nat_text(n);
    let t = nat_text(n);
    let z = zero_pad(t, width);
    if t.len() < width {
        let k = (width - t.len()) as nat;
        lemma_digits_leading_zeros(k, t);
        assert forall|i: int| 0 <= i < z.len() implies crate::text::is_ascii_digit(#[trigger] z[i]) by {
            if i >= k {
                assert(z[i] == t[i - k]);
            }
        }
    }
    assert(crate::text::is_ascii_digit(z[0]));
}

proof fn lemma_strip_digits(s: Seq<char>, c: char)
    requires
        s.len() >= 1,
        crate::text::is_ascii_digit(s[0]),
        !crate::text::is_ascii_digit(c),
    ensures
        strip_leading(s, c) == s,
        strip_leading(seq![c] + s, c) == s,
{
    assert((seq![c] + s)[0] == c);
    assert((seq![c] + s).drop_first() =~= s);
}

proof fn lemma_pieces_plain(a: Seq<char>)
    requires
        all_digits(a),
    ensures
        decimal_pieces(a) == Some((a, Seq::<char>::empty())),
{
    assert(!a.contains('.')) by {
        if a.contains('.') {
            let i = choose|i: int| 0 <= i < a.len() && a[i] == '.';
            assert(crate::text::is_ascii_digit(a[i]));
        }
    }
}

proof fn lemma_pieces_split(a: Seq<char>, b: Seq<char>)
    requires
        all_digits(a),
        all_digits(b),
    ensures
        decimal_pieces(a + seq!['.'] + b) == Some((a, b)),
{
    let s = a + seq!['.'] + b;
    let p = a.len() as int;
    assert(s[p] == '.');
    assert(s.contains('.'));
    let f = crate::text::first_index(s, '.');
    assert(0 <= p < s.len() && s[p] == '.' && forall|j: int| 0 <= j < p ==> s[j] != '.') by {
        assert forall|j: int| 0 <= j < p implies s[j] != '.' by {
            assert(s[j] == a[j]);
            assert(crate::text::is_ascii_digit(a[j]));
        }
    }
    assert(f == p) by {
        assert(0 <= f < s.len() && s[f] == '.' && forall|j: int| 0 <= j < f ==> s[j] != '.');
        if f < p {
            assert(s[f] == a[f]);
            assert(crate::text::is_ascii_digit(a[f]));
        } else if f > p {
            assert(s[p] != '.');
        }
    }
    assert(s.skip(p + 1) =~= b);
    assert(s.take(p) =~= a);
    assert(!b.contains('.')) by {
        if b.contains('.') {
            let i = choose|i: int| 0 <= i < b.len() && b[i] == '.';
            assert(crate::text::is_ascii_digit(b[i]));
        }
    }
}

proof fn lemma_round_trip_whole(v: i128)
    requires
        v != i128::MIN,
    ensures
        decimal128_spec(decimal_text(v as int, 0), 0) == DecimalOutcome::Value(v as int),
{
    let m = magnitude(v as int);
    let neg = v < 0;
    assert(m <= i128::MAX);
    let body = nat_text(m);
    lemma_nat_text_digits(m);
    lemma_parse_nat_text(m);
    lemma_strip_digits(body, '-');
    lemma_strip_digits(body, '+');
    lemma_pieces_plain(body);
    let t = decimal_text(v as int, 0);
    assert(t =~= sign_text(neg) + body);
    assert(strip_leading(strip_leading(t, '-'), '+') == body) by {
        if !neg {
            assert(t =~= body);
        }
    }
    assert(t.len() > 0 && t[0] == '-' <==> neg) by {
        if !neg {
            assert(t =~= body);
            assert(crate::text::is_ascii_digit(body[0]));
        }
    }
    assert(wrap_i8(0) == 0);
    assert(pow10(0) == 1);
}

proof fn lemma_round_trip_text(v: i128, scale: i8, q: nat, f: nat)
    requires
        1 <= scale <= 38,
        v != i128::MIN,
        q == magnitude(v as int) as int / pow10(scale as nat),
        f == magnitude(v as int) as int % pow10(scale as nat),
        f < pow10(scale as nat),
        q <= i128::MAX,
        f <= i128::MAX,
    ensures
        ({
            let t = decimal_text(v as int, scale as int);
            let z = zero_pad(nat_text(f), scale as nat);
            &&& (t.len() > 0 && t[0] == '-') == (v < 0)
            &&& decimal_pieces(strip_leading(strip_leading(t, '-'), '+')) == Some((nat_text(q), z))
            &&& parse_int_spec(nat_text(q), i128::MIN as int, i128::MAX as int, true) == Ok::<int, IntErrorKind>(q as int)
            &&& parse_int_spec(z, i128::MIN as int, i128::MAX as int, true) == Ok::<int, IntErrorKind>(f as int)
            &&& z.len() == scale
            &&& nat_text(q).len() > 0
        }),
{
    let neg = v < 0;
    let a = nat_text(q);
    let z = zero_pad(nat_text(f), scale as nat);
    lemma_nat_text_digits(q);
    lemma_parse_nat_text(q);
    lemma_parse_padded(f, scale as nat);
    lemma_nat_text_len_bound(f, scale as nat);
    let body = a + seq!['.'] + z;
    lemma_pieces_split(a, z);
    assert(body[0] == a[0]);
    lemma_strip_digits(body, '-');
    lemma_strip_digits(body, '+');
    let t = decimal_text(v as int, scale as int);
    assert(t =~= sign_text(neg) + body);
    assert(strip_leading(strip_leading(t, '-'), '+') == body) by {
        if !neg {
            assert(t =~= body);
        }
    }
    assert(t.len() > 0 && t[0] == '-' <==> neg) by {
        if !neg {
            assert(t =~= body);
        }
    }
}

proof fn lemma_round_trip_scaled(v: i128, scale: i8)
    requires
        1 <= scale <= 38,
        v != i128::MIN,
    ensures
        decimal128_spec(decimal_text(v as int, scale as int), scale) == DecimalOutcome::Value(v as int),
{
    let m = magnitude(v as int);
    assert(m <= i128::MAX);
    let d = pow10(scale as nat);
    lemma_pow10_positive(scale as nat);
    let q = (m as int / d) as nat;
    let f = (m as int % d) as nat;
    assert(m as int == d * q + f) by (nonlinear_arith)
        requires
            d > 0,
            q == m as int / d,
            f == m as int % d,
    ;
    assert(q <= m) by (nonlinear_arith)
        requires
            d >= 1,
            q == m as int / d,
            m >= 0,
    ;
    lemma_round_trip_text(v, scale, q, f);
    let z = zero_pad(nat_text(f), scale as nat);
    assert(wrap_i8(z.len()) == scale as int);
    assert(d / d == 1) by (nonlinear_arith)
        requires
            d > 0,
    ;
    assert(q * d <= m) by (nonlinear_arith)
        requires
            m as int == d * q + f,
            f >= 0,
    ;
    assert(f * (d / d) == f);
    assert(q * d + f == m) by (nonlinear_arith)
        requires
            m as int == d * q + f,
    ;
}

/// Digits, `-` and `.`: what formatted decimals are made of.
spec fn plain_char(c: char) -> bool {
    is_ascii_digit(c) || c == '-' || c == '.'
}

spec fn all_plain(s: Seq<char>) -> bool {
    forall|i: int| 0 <= i < s.len() ==> plain_char(#[trigger] s[i])
}

proof fn lemma_nat_text_plain(n: nat)
    ensures
        all_plain(nat_text(n)),
        nat_text(n).len() >= 1,
    decreases n,
{
    if n >= 10 {
        lemma_nat_text_plain(n / 10);
    }
}

proof fn lemma_decimal_text_plain(v: int, scale: int)
    requires
        0 <= scale,
    ensures
        all_plain(decimal_text(v, scale)),
{
    if scale == 0 {
        lemma_nat_text_plain(magnitude(v));
        if v < 0 {
            assert(magnitude(v) == (-v) as nat);
        } else {
            assert(magnitude(v) == v as nat);
        }
        let t = int_text(v);
        assert forall|i: int| 0 <= i < t.len() implies plain_char(#[trigger] t[i]) by {
            if v < 0 && i > 0 {
                assert(t[i] == nat_text((-v) as nat)[i - 1]);
            }
        }
    } else {
        let d = pow10(scale as nat);
        let a = nat_text((magnitude(v) as int / d) as nat);
        let f = nat_text((magnitude(v) as int % d) as nat);
        lemma_nat_text_plain((magnitude(v) as int / d) as nat);
        lemma_nat_text_plain((magnitude(v) as int % d) as nat);
        let z = zero_pad(f, scale as nat);
        assert(all_plain(z)) by {
            if f.len() < scale {
                let zs = Seq::new((scale - f.len()) as nat, |i: int| '0');
                assert forall|i: int| 0 <= i < z.len() implies plain_char(#[trigger] z[i]) by {
                    if i >= zs.len() {
                        assert(z[i] == f[i - zs.len()]);
                    }
                }
            }
        }
        let t = sign_text(v < 0) + a + seq!['.'] + z;
        assert(t == decimal_text(v, scale));
        assert forall|i: int| 0 <= i < t.len() implies plain_char(#[trigger] t[i]) by {
            let sl = sign_text(v < 0).len() as int;
            if i < sl {
            } else if i < sl + a.len() {
                assert(t[i] == a[i - sl]);
            } else if i == sl + a.len() {
            } else {
                assert(t[i] == z[i - sl - a.len() - 1]);
            }
        }
    }
}

/// Text made only of digits, `-` and `.` holds no exponent and loses
/// nothing to trimming.
proof fn lemma_plain_is_trimmed(s: Seq<char>)
    requires
        all_plain(s),
    ensures
        !has_exponent(s),
        trim(s) == s,
{
    if s.contains('e') {
        let i = choose|i: int| 0 <= i < s.len() && s[i] == 'e';
        assert(plain_char(s[i]));
    }
    if s.contains('E') {
        let i = choose|i: int| 0 <= i < s.len() && s[i] == 'E';
        assert(plain_char(s[i]));
    }
    if s.len() > 0 {
        assert(plain_char(s[0]));
        assert(plain_char(s[s.len() - 1]));
    }
    assert(trim_start(s) == s);
    assert(trim_end(s) == s);
}

/// Reading back the text of a `Decimal128` at its scale gives the value:
/// for every scale from 0 to 38 and every value but `i128::MIN`, the text
/// `format_decimal128` writes (`decimal_text(v, scale)`) holds no exponent
/// and is unchanged by trimming, so `parse_decimal128` takes it, and
/// parsing it at `scale` yields `v` again.
pub proof fn law_decimal_text_round_trips(v: i128, scale: i8)
    requires
        0 <= scale <= 38,
        v != i128::MIN,
    ensures
        !has_exponent(decimal_text(v as int, scale as int)),
        trim(decimal_text(v as int, scale as int)) == decimal_text(v as int, scale as int),
        decimal128_spec(decimal_text(v as int, scale as int), scale) == DecimalOutcome::Value(v as int),
{
    lemma_decimal_text_plain(v as int, scale as int);
    lemma_plain_is_trimmed(decimal_text(v as int, scale as int));
    if scale == 0 {
        lemma_round_trip_whole(v);
    } else {
        lemma_round_trip_scaled(v, scale);
    }
}

/// The value of decimal digits read left to right, `_` separators skipped.
pub open spec fn big_digits_value(s: Seq<char>) -> int
    decreases s.len(),
{
    if s.len() == 0 {
        0
    } else if s.last() == '_' {
        big_digits_value(s.drop_last())
    } else {
        big_digits_value(s.drop_last()) * 10 + digit_value(s.last())
    }
}

/// What `BigUint::from_str_radix(s, 10)` gives: one leading `+` is dropped
/// unless another follows; then the text must be non-empty, must not start
/// with `_`, and may hold only digits and `_` separators.
pub open spec fn big_unsigned_spec(s: Seq<char>) -> Result<int, IntErrorKind> {
    let u = if s.len() > 0 && s[0] == '+' && !(s.len() > 1 && s[1] == '+') {
        s.drop_first()
    } else {
        s
    };
    if u.len() == 0 {
        Err(IntErrorKind::Empty)
    } else if u[0] == '_' || exists|i: int| 0 <= i < u.len() && !(is_ascii_digit(#[trigger] u[i]) || u[i] == '_') {
        Err(IntErrorKind::InvalidDigit)
    } else {
        Ok(big_digits_value(u))
    }
}

/// What `<BigInt as FromStr>::from_str` gives: a leading `-` (unless a `+`
/// follows it) negates what the rest reads as an unsigned number.
pub open spec fn big_parse_spec(s: Seq<char>) -> Result<int, IntErrorKind> {
    if s.len() > 0 && s[0] == '-' {
        let t = if !(s.len() > 1 && s[1] == '+') {
            s.drop_first()
        } else {
            s
        };
        match big_unsigned_spec(t) {
            Ok(v) => Ok(-v),
            Err(k) => Err(k),
        }
    } else {
        big_unsigned_spec(s)
    }
}

/// `<BigInt as FromStr>::from_str` (base 10), with the error's text.
#[verifier::external_body]
fn big_from_str(s: &str) -> (r: Result<num::BigInt, String>)
    ensures
        match r {
            Ok(b) => big_parse_spec(s@) == Ok::<int, IntErrorKind>(big_int_value(b)),
            Err(m) => big_parse_spec(s@) matches Err(k) && m@ == int_error_text(k),
        },
{
    s.parse::<num::BigInt>().map_err(|e| e.to_string())
}

/// `BigInt + BigInt`: the sum.
#[verifier::external_body]
fn big_add(a: num::BigInt, b: num::BigInt) -> (r: num::BigInt)
    ensures
        big_int_value(r) == big_int_value(a) + big_int_value(b),
{
    a + b
}

/// `-BigInt`: the negation.
#[verifier::external_body]
fn big_neg(a: num::BigInt) -> (r: num::BigInt)
    ensures
        big_int_value(r) == -big_int_value(a),
{
    -a
}

/// The sign, integer value, fraction value and fraction length (in
/// characters) that decimal text without an exponent splits into at
/// `scale`, or the error met on the way: as for `decimal128_spec`, but with
/// integers of any size.
pub open spec fn decimal256_parsed(t: Seq<char>, scale: i8) -> Result<(bool, int, int, nat), CoreErrorView> {
    let neg = t.len() > 0 && t[0] == '-';
    let abs = strip_leading(strip_leading(t, '-'), '+');
    match decimal_pieces(abs) {
        None => Err(CoreErrorView::Conversion("Invalid decimal format"@)),
        Some((ip0, fp)) => {
            let ip = if ip0.len() == 0 {
                "0"@
            } else {
                ip0
            };
            if scale < 0 {
                Err(CoreErrorView::Conversion("Negative scale not supported"@))
            } else {
                match big_parse_spec(ip) {
                    Err(k) => Err(
                        CoreErrorView::Conversion("Failed to parse integer part: "@ + int_error_text(k)),
                    ),
                    Ok(iv) => {
                        let fr = if fp.len() == 0 {
                            Ok(0int)
                        } else {
                            big_parse_spec(fp)
                        };
                        match fr {
                            Err(k) => Err(
                                CoreErrorView::Conversion("Failed to parse fractional part: "@ + int_error_text(k)),
                            ),
                            Ok(fv) => Ok((neg, iv, fv, fp.len())),
                        }
                    },
                }
            }
        },
    }
}

/// The integer part `iv` and fraction `fv` (of `cs` digits) at `scale`:
/// the fraction padded or cut (toward zero) to `scale` digits, then the
/// sign applied.
pub open spec fn scaled_big(iv: int, fv: int, cs: int, scale: int, neg: bool) -> int {
    let sf = pow10(scale as nat);
    let v = if cs <= scale {
        iv * sf + fv * pow10((scale - cs) as nat)
    } else {
        iv * sf + trunc_div(fv, pow10((cs - scale) as nat))
    };
    if neg {
        -v
    } else {
        v
    }
}

/// What decimal text without an exponent gives as a `Decimal256` at
/// `scale`; the fraction's length counts as an `i8`.
pub open spec fn decimal256_spec(t: Seq<char>, scale: i8) -> Result<int, CoreErrorView> {
    match decimal256_parsed(t, scale) {
        Err(e) => Err(e),
        Ok((neg, iv, fv, n)) => Ok(scaled_big(iv, fv, wrap_i8(n), scale as int, neg)),
    }
}

/// Whether the fraction is so long (128 to 255 characters, modulo 256) that
/// its length read as an `i8` is negative: the scaling then raises ten to
/// a power of about four billion, which does not finish.
pub open spec fn decimal256_stalls(t: Seq<char>, scale: i8) -> bool {
    decimal256_parsed(t, scale) matches Ok((_, _, _, n)) && wrap_i8(n) < 0
}

/// The parts of decimal text (see `decimal256_parsed`).
fn decimal256_parts(text: &Vec<char>, scale: i8) -> (r: Result<(bool, num::BigInt, num::BigInt, usize), CoreError>)
    ensures
        match r {
            Ok((neg, iv, fv, n)) => decimal256_parsed(text@, scale) == Ok::<(bool, int, int, nat), CoreErrorView>(
                (neg, big_int_value(iv), big_int_value(fv), n as nat),
            ),
            Err(e) => decimal256_parsed(text@, scale) == Err::<(bool, int, int, nat), CoreErrorView>(e@),
        },
{
    let (neg, ip0, fp) = match decimal_split(text) {
        Ok(p) => p,
        Err(e) => {
            return Err(e);
        },
    };
    let ip: Vec<char> = if ip0.len() == 0 {
        let mut z: Vec<char> = Vec::new();
        z.push('0');
        proof {
            assert(z@ =~= "0"@) by {
                reveal_strlit("0");
            }
        }
        z
    } else {
        ip0
    };
    if scale < 0 {
        return Err(CoreError::Conversion("Negative scale not supported".to_string()));
    }
    let ips = string_of(ip.as_slice());
    let iv = match big_from_str(ips.as_str()) {
        Ok(v) => v,
        Err(m) => {
            let mut msg = "Failed to parse integer part: ".to_string();
            push_str(&mut msg, m.as_str());
            return Err(CoreError::Conversion(msg));
        },
    };
    let fv = if fp.len() == 0 {
        big_from_i32(0)
    } else {
        let fps = string_of(fp.as_slice());
        match big_from_str(fps.as_str()) {
            Ok(v) => v,
            Err(m) => {
                let mut msg = "Failed to parse fractional part: ".to_string();
                push_str(&mut msg, m.as_str());
                return Err(CoreError::Conversion(msg));
            },
        }
    };
    Ok((neg, iv, fv, fp.len()))
}

/// Whether parsing `text` as a `Decimal256` at `scale` would not finish
/// (see `decimal256_stalls`); `parse_decimal256` takes the texts for which
/// this is false.
pub fn decimal256_stalls_on(text: &str, scale: i8) -> (r: bool)
    ensures
        r == decimal256_stalls(trim(text@), scale),
{
    let cs = chars_of(text);
    let t = trimmed(cs.as_slice());
    match decimal256_parts(&t, scale) {
        Ok((_, _, _, n)) => n % 256 >= 128,
        Err(_) => false,
    }
}

/// The `Decimal256` value of decimal text at `scale`: the text is trimmed,
/// then read as `decimal256_spec` says. Text with an exponent goes through
/// floating point first, which the caller does (see `has_exponent_marker`).
pub fn parse_decimal256(text: &str, scale: i8) -> (r: Result<num::BigInt, CoreError>)
    requires
        !has_exponent(text@),
        !decimal256_stalls(trim(text@), scale),
    ensures
        match r {
            Ok(b) => decimal256_spec(trim(text@), scale) == Ok::<int, CoreErrorView>(big_int_value(b)),
            Err(e) => decimal256_spec(trim(text@), scale) == Err::<int, CoreErrorView>(e@),
        },
{
    let cs = chars_of(text);
    let t = trimmed(cs.as_slice());
    let (neg, iv, fv, n) = match decimal256_parts(&t, scale) {
        Ok(p) => p,
        Err(e) => {
            return Err(e);
        },
    };
    let cur: u32 = (n % 256) as u32;
    proof {
        assert(cur as int == wrap_i8(n as nat));
        lemma_pow10_positive(cur as nat);
        lemma_pow10_positive(scale as nat);
    }
    let sf = big_ten_pow(scale as u32);
    let value = if cur <= scale as u32 {
        let csf = big_ten_pow(cur);
        let ratio = big_div(&sf, &csf);
        proof {
            let d = (scale as int - cur as int) as nat;
            lemma_pow10_add(cur as nat, d);
            assert(cur as nat + d == scale as nat);
            lemma_pow10_positive(d);
            let a = pow10(cur as nat);
            let b = pow10(d);
            assert((a * b) / a == b) by (nonlinear_arith)
                requires
                    a >= 1,
            ;
            assert(big_int_value(ratio) == pow10(d));
        }
        big_add(big_mul(iv, sf), big_mul(fv, ratio))
    } else {
        let adj = big_ten_pow(cur - scale as u32);
        proof {
            lemma_pow10_positive((cur - scale as u32) as nat);
        }
        let tail = big_div(&fv, &adj);
        big_add(big_mul(iv, sf), tail)
    };
    if neg {
        Ok(big_neg(value))
    } else {
        Ok(value)
    }
}

} // verus!
