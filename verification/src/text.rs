//! Character-level text helpers shared by the parsers of this crate.
//!
//! Strings are modelled by their `Seq<char>` view; their UTF-8 byte length is
//! `byte_len`, the quantity Rust's `str::len` returns.

use vstd::prelude::*;
use vstd::utf8::encode_utf8;
use vstd::string::StringExecFns;

verus! {

broadcast use vstd::string::group_string_axioms;

/// The UTF-8 byte length of a text.
pub open spec fn byte_len(t: Seq<char>) -> nat {
    encode_utf8(t).len()
}

/// Equal encodings mean equal texts.
pub proof fn lemma_encode_injective(a: Seq<char>, b: Seq<char>)
    requires
        encode_utf8(a) == encode_utf8(b),
    ensures
        a == b,
{
    vstd::utf8::encode_utf8_decode_utf8(a);
    vstd::utf8::encode_utf8_decode_utf8(b);
}

/// The UTF-8 byte length of `s` (`str::len`).
pub fn byte_length(s: &str) -> (r: usize)
    ensures
        r == byte_len(s@),
{
    s.as_bytes().len()
}

/// Compare two strings by content.
pub fn str_eq(a: &str, b: &str) -> (r: bool)
    ensures
        r == (a@ == b@),
{
    let ab = a.as_bytes();
    let bb = b.as_bytes();
    if ab.len() != bb.len() {
        return false;
    }
    let n = ab.len();
    let mut i: usize = 0;
    while i < n
        invariant
            n == ab@.len(),
            n == bb@.len(),
            ab@ == encode_utf8(a@),
            bb@ == encode_utf8(b@),
            i <= n,
            forall|j: int| 0 <= j < i ==> ab@[j] == bb@[j],
        decreases n - i,
    {
        if ab[i] != bb[i] {
            return false;
        }
        i = i + 1;
    }
    proof {
        assert(ab@ =~= bb@);
        lemma_encode_injective(a@, b@);
    }
    true
}

/// The characters of a string.
pub fn chars_of(s: &str) -> (r: Vec<char>)
    ensures
        r@ == s@,
{
    let mut out: Vec<char> = Vec::new();
    for c in it: s.chars()
        invariant
            it.seq() == s@,
            out@ == it.seq().take(it.index() as int),
    {
        out.push(c);
    }
    proof {
        assert(out@ =~= s@.take(s@.len() as int));
    }
    out
}


/// Append one character to a string (`String::push`).
#[verifier::external_body]
pub(crate) fn push_char(s: &mut String, c: char)
    ensures
        final(s)@ == old(s)@.push(c),
{
    s.push(c);
}

/// Append a string slice.
pub(crate) fn push_str(s: &mut String, t: &str)
    ensures
        final(s)@ == old(s)@ + t@,
{
    s.append(t);
}

/// A string holding the characters `cs[lo..hi]`.
pub fn string_of_range(cs: &[char], lo: usize, hi: usize) -> (r: String)
    requires
        lo <= hi <= cs@.len(),
    ensures
        r@ == cs@.subrange(lo as int, hi as int),
{
    let mut out = String::new();
    let mut i = lo;
    while i < hi
        invariant
            lo <= i <= hi,
            hi <= cs@.len(),
            out@ == cs@.subrange(lo as int, i as int),
        decreases hi - i,
    {
        push_char(&mut out, cs[i]);
        proof {
            assert(cs@.subrange(lo as int, i + 1) =~= cs@.subrange(lo as int, i as int).push(cs@[i as int]));
        }
        i = i + 1;
    }
    out
}

/// A string holding the characters `cs`.
pub fn string_of(cs: &[char]) -> (r: String)
    ensures
        r@ == cs@,
{
    let r = string_of_range(cs, 0, cs.len());
    proof {
        assert(cs@.subrange(0, cs@.len() as int) =~= cs@);
    }
    r
}

/// The Unicode `White_Space` property, which `char::is_whitespace` tests.
pub open spec fn is_white_space(c: char) -> bool {
    let u = c as u32;
    ||| 0x09 <= u <= 0x0D
    ||| u == 0x20
    ||| u == 0x85
    ||| u == 0xA0
    ||| u == 0x1680
    ||| 0x2000 <= u <= 0x200A
    ||| u == 0x2028
    ||| u == 0x2029
    ||| u == 0x202F
    ||| u == 0x205F
    ||| u == 0x3000
}

/// Whether `c` is white space, as `char::is_whitespace` decides it.
pub fn is_whitespace(c: char) -> (r: bool)
    ensures
        r == is_white_space(c),
{
    let u = c as u32;
    (0x09 <= u && u <= 0x0D) || u == 0x20 || u == 0x85 || u == 0xA0 || u == 0x1680 || (0x2000 <= u
        && u <= 0x200A) || u == 0x2028 || u == 0x2029 || u == 0x202F || u == 0x205F || u == 0x3000
}

/// The text without its leading white space.
pub open spec fn trim_start(s: Seq<char>) -> Seq<char>
    decreases s.len(),
{
    if s.len() > 0 && is_white_space(s[0]) {
        trim_start(s.drop_first())
    } else {
        s
    }
}

/// The text without its trailing white space.
pub open spec fn trim_end(s: Seq<char>) -> Seq<char>
    decreases s.len(),
{
    if s.len() > 0 && is_white_space(s.last()) {
        trim_end(s.drop_last())
    } else {
        s
    }
}

/// The text without leading and trailing white space (`str::trim`).
pub open spec fn trim(s: Seq<char>) -> Seq<char> {
    trim_end(trim_start(s))
}

/// The bounds of `cs` once white space is trimmed from both ends.
pub fn trim_bounds(cs: &[char]) -> (r: (usize, usize))
    ensures
        r.0 <= r.1 <= cs@.len(),
        cs@.subrange(r.0 as int, r.1 as int) == trim(cs@),
{
    let n = cs.len();
    let mut lo: usize = 0;
    proof {
        assert(cs@.subrange(0, n as int) =~= cs@);
    }
    while lo < n && is_whitespace(cs[lo])
        invariant
            n == cs@.len(),
            lo <= n,
            trim_start(cs@) == trim_start(cs@.subrange(lo as int, n as int)),
        decreases n - lo,
    {
        proof {
            assert(cs@.subrange(lo + 1, n as int) =~= cs@.subrange(lo as int, n as int).drop_first());
        }
        lo = lo + 1;
    }
    let mut hi: usize = n;
    while hi > lo && is_whitespace(cs[hi - 1])
        invariant
            n == cs@.len(),
            lo <= hi <= n,
            trim_start(cs@) == cs@.subrange(lo as int, n as int),
            trim(cs@) == trim_end(cs@.subrange(lo as int, hi as int)),
        decreases hi - lo,
    {
        proof {
            assert(cs@.subrange(lo as int, hi - 1) =~= cs@.subrange(lo as int, hi as int).drop_last());
        }
        hi = hi - 1;
    }
    (lo, hi)
}

/// Why a decimal integer failed to parse, as `core::num::IntErrorKind` tells it.
#[derive(Clone, Copy, Debug, PartialEq, Eq, Structural)]
pub enum IntErrorKind {
    Empty,
    InvalidDigit,
    PosOverflow,
    NegOverflow,
}

pub open spec fn is_ascii_digit(c: char) -> bool {
    '0' <= c <= '9'
}

pub open spec fn digit_value(c: char) -> int {
    c as int - '0' as int
}

/// Decimal digits read left to right into `acc`, failing at the first
/// character that is no digit or that takes the value out of `lo..=hi`.
pub open spec fn digits_spec(acc: int, s: Seq<char>, lo: int, hi: int, neg: bool) -> Result<
    int,
    IntErrorKind,
>
    decreases s.len(),
{
    if s.len() == 0 {
        Ok(acc)
    } else if !is_ascii_digit(s[0]) {
        Err(IntErrorKind::InvalidDigit)
    } else {
        let next = if neg {
            acc * 10 - digit_value(s[0])
        } else {
            acc * 10 + digit_value(s[0])
        };
        if next > hi {
            Err(IntErrorKind::PosOverflow)
        } else if next < lo {
            Err(IntErrorKind::NegOverflow)
        } else {
            digits_spec(next, s.drop_first(), lo, hi, neg)
        }
    }
}

/// What `str::parse` gives for an integer type with range `lo..=hi`
/// (`signed` when the type admits a leading `-`).
pub open spec fn parse_int_spec(s: Seq<char>, lo: int, hi: int, signed: bool) -> Result<
    int,
    IntErrorKind,
> {
    if s.len() == 0 {
        Err(IntErrorKind::Empty)
    } else if (s[0] == '+' || s[0] == '-') && s.len() == 1 {
        Err(IntErrorKind::InvalidDigit)
    } else if s[0] == '+' {
        digits_spec(0, s.drop_first(), lo, hi, false)
    } else if s[0] == '-' && signed {
        digits_spec(0, s.drop_first(), lo, hi, true)
    } else {
        digits_spec(0, s, lo, hi, false)
    }
}

proof fn lemma_digits_in_range(acc: int, s: Seq<char>, lo: int, hi: int, neg: bool)
    requires
        lo <= acc <= hi,
    ensures
        digits_spec(acc, s, lo, hi, neg) matches Ok(v) ==> lo <= v <= hi,
    decreases s.len(),
{
    if s.len() > 0 && is_ascii_digit(s[0]) {
        let next = if neg {
            acc * 10 - digit_value(s[0])
        } else {
            acc * 10 + digit_value(s[0])
        };
        if lo <= next <= hi {
            lemma_digits_in_range(next, s.drop_first(), lo, hi, neg);
        }
    }
}

/// Parse `cs[from..to]` as decimal digits, continuing the value `acc`.
fn parse_digits(cs: &[char], from: usize, to: usize, lo: i128, hi: i128, neg: bool) -> (r: Result<
    i128,
    IntErrorKind,
>)
    requires
        from <= to <= cs@.len(),
        lo <= 0 <= hi,
    ensures
        r matches Ok(v) ==> digits_spec(0, cs@.subrange(from as int, to as int), lo as int, hi as int, neg) == Ok::<int, IntErrorKind>(v as int),
        r matches Err(e) ==> digits_spec(0, cs@.subrange(from as int, to as int), lo as int, hi as int, neg) == Err::<int, IntErrorKind>(e),
{
    let mut acc: i128 = 0;
    let mut i = from;
    while i < to
        invariant
            from <= i <= to,
            to <= cs@.len(),
            lo <= acc <= hi,
            lo <= 0 <= hi,
            neg ==> acc <= 0,
            !neg ==> acc >= 0,
            digits_spec(0, cs@.subrange(from as int, to as int), lo as int, hi as int, neg)
                == digits_spec(acc as int, cs@.subrange(i as int, to as int), lo as int, hi as int, neg),
        decreases to - i,
    {
        let c = cs[i];
        proof {
            assert(cs@.subrange(i as int, to as int)[0] == c);
            assert(cs@.subrange(i + 1, to as int) =~= cs@.subrange(i as int, to as int).drop_first());
        }
        if !('0' <= c && c <= '9') {
            return Err(IntErrorKind::InvalidDigit);
        }
        let d = (c as u32 - '0' as u32) as i128;
        let next: Option<i128> = match acc.checked_mul(10) {
            Some(m) => if neg {
                m.checked_sub(d)
            } else {
                m.checked_add(d)
            },
            None => None,
        };
        match next {
            Some(nv) => {
                if nv > hi {
                    return Err(IntErrorKind::PosOverflow);
                }
                if nv < lo {
                    return Err(IntErrorKind::NegOverflow);
                }
                acc = nv;
            },
            None => {
                if neg {
                    return Err(IntErrorKind::NegOverflow);
                } else {
                    return Err(IntErrorKind::PosOverflow);
                }
            },
        }
        i = i + 1;
    }
    proof {
        assert(cs@.subrange(to as int, to as int).len() == 0);
    }
    Ok(acc)
}

/// Parse `cs` as `str::parse` does for an integer type with range
/// `lo..=hi`.
pub fn parse_int(cs: &[char], lo: i128, hi: i128, signed: bool) -> (r: Result<i128, IntErrorKind>)
    requires
        lo <= 0 <= hi,
    ensures
        r matches Ok(v) ==> parse_int_spec(cs@, lo as int, hi as int, signed) == Ok::<int, IntErrorKind>(v as int),
        r matches Err(e) ==> parse_int_spec(cs@, lo as int, hi as int, signed) == Err::<int, IntErrorKind>(e),
        r matches Ok(v) ==> lo <= v <= hi,
{
    let n = cs.len();
    proof {
        assert(cs@.subrange(0, n as int) =~= cs@);
        if n > 0 {
            assert(cs@.subrange(1, n as int) =~= cs@.drop_first());
        }
        lemma_digits_in_range(0, cs@, lo as int, hi as int, false);
        lemma_digits_in_range(0, cs@.drop_first(), lo as int, hi as int, false);
        lemma_digits_in_range(0, cs@.drop_first(), lo as int, hi as int, true);
    }
    if n == 0 {
        return Err(IntErrorKind::Empty);
    }
    let first = cs[0];
    if (first == '+' || first == '-') && n == 1 {
        return Err(IntErrorKind::InvalidDigit);
    }
    if first == '+' {
        parse_digits(cs, 1, n, lo, hi, false)
    } else if first == '-' && signed {
        parse_digits(cs, 1, n, lo, hi, true)
    } else {
        parse_digits(cs, 0, n, lo, hi, false)
    }
}

/// Whether `cs` begins with the characters of `lit`.
pub fn starts_with(cs: &[char], lit: &str) -> (r: bool)
    ensures
        r == (lit@.len() <= cs@.len() && cs@.subrange(0, lit@.len() as int) == lit@),
{
    let l = chars_of(lit);
    if l.len() > cs.len() {
        return false;
    }
    let mut i: usize = 0;
    while i < l.len()
        invariant
            l@ == lit@,
            l@.len() <= cs@.len(),
            i <= l@.len(),
            forall|j: int| 0 <= j < i ==> cs@[j] == l@[j],
        decreases l@.len() - i,
    {
        if cs[i] != l[i] {
            proof {
                assert(cs@.subrange(0, lit@.len() as int)[i as int] != lit@[i as int]);
            }
            return false;
        }
        i = i + 1;
    }
    proof {
        assert(cs@.subrange(0, lit@.len() as int) =~= lit@);
    }
    true
}

/// Whether `cs` holds exactly the characters of `lit`.
pub fn eq_lit(cs: &[char], lit: &str) -> (r: bool)
    ensures
        r == (cs@ == lit@),
{
    let l = chars_of(lit);
    if l.len() != cs.len() {
        return false;
    }
    let r = starts_with(cs, lit);
    proof {
        assert(cs@.subrange(0, cs@.len() as int) =~= cs@);
    }
    r
}

/// Whether `cs` ends with `c`.
pub fn ends_with_char(cs: &[char], c: char) -> (r: bool)
    ensures
        r == (cs@.len() > 0 && cs@.last() == c),
{
    cs.len() > 0 && cs[cs.len() - 1] == c
}

/// Whether `c` occurs in `cs`.
pub fn contains_char(cs: &[char], c: char) -> (r: bool)
    ensures
        r == cs@.contains(c),
{
    let mut i: usize = 0;
    while i < cs.len()
        invariant
            i <= cs@.len(),
            forall|j: int| 0 <= j < i ==> cs@[j] != c,
        decreases cs@.len() - i,
    {
        if cs[i] == c {
            return true;
        }
        i = i + 1;
    }
    false
}

/// The position of the first `c` in `s` (meaningful when `s` holds `c`).
pub open spec fn first_index(s: Seq<char>, c: char) -> int {
    choose|i: int| 0 <= i < s.len() && s[i] == c && forall|j: int| 0 <= j < i ==> s[j] != c
}

/// The two pieces of `s` around its only `c`, when `c` occurs exactly once
/// (so that splitting on `c` gives two pieces).
pub open spec fn split_two(s: Seq<char>, c: char) -> Option<(Seq<char>, Seq<char>)> {
    if s.contains(c) && !s.skip(first_index(s, c) + 1).contains(c) {
        Some((s.take(first_index(s, c)), s.skip(first_index(s, c) + 1)))
    } else {
        None
    }
}

/// The position of the only `c` in `cs`, when `c` occurs exactly once.
pub fn only_position(cs: &[char], c: char) -> (r: Option<usize>)
    ensures
        match r {
            Some(i) => i < cs@.len() && split_two(cs@, c) == Some((cs@.take(i as int), cs@.skip(i + 1))),
            None => split_two(cs@, c) is None,
        },
{
    let n = cs.len();
    let mut i: usize = 0;
    while i < n && cs[i] != c
        invariant
            n == cs@.len(),
            i <= n,
            forall|j: int| 0 <= j < i ==> cs@[j] != c,
        decreases n - i,
    {
        i = i + 1;
    }
    if i == n {
        return None;
    }
    proof {
        let w = first_index(cs@, c);
        assert(cs@[i as int] == c);
        assert(0 <= w < cs@.len() && cs@[w] == c && forall|j: int| 0 <= j < w ==> cs@[j] != c);
        if w < i {
            assert(cs@[w] != c);
        }
        if w > i {
            assert(cs@[i as int] != c);
        }
        assert(w == i);
    }
    let mut k: usize = i + 1;
    while k < n
        invariant
            n == cs@.len(),
            i < k <= n,
            i < n,
            cs@[i as int] == c,
            first_index(cs@, c) == i,
            forall|j: int| i < j < k ==> cs@[j] != c,
        decreases n - k,
    {
        if cs[k] == c {
            proof {
                assert(cs@.contains(c));
                assert(cs@.skip(i + 1)[k - i - 1] == c);
            }
            return None;
        }
        k = k + 1;
    }
    proof {
        assert forall|j: int| 0 <= j < cs@.skip(i + 1).len() implies #[trigger] cs@.skip(i + 1)[j] != c by {
            assert(cs@.skip(i + 1)[j] == cs@[i + 1 + j]);
        }
    }
    Some(i)
}

/// The characters of `cs[lo..hi]`.
pub fn slice_vec(cs: &[char], lo: usize, hi: usize) -> (r: Vec<char>)
    requires
        lo <= hi <= cs@.len(),
    ensures
        r@ == cs@.subrange(lo as int, hi as int),
{
    let mut out: Vec<char> = Vec::new();
    let mut i = lo;
    while i < hi
        invariant
            lo <= i <= hi,
            hi <= cs@.len(),
            out@ == cs@.subrange(lo as int, i as int),
        decreases hi - i,
    {
        out.push(cs[i]);
        proof {
            assert(cs@.subrange(lo as int, i + 1) =~= cs@.subrange(lo as int, i as int).push(cs@[i as int]));
        }
        i = i + 1;
    }
    out
}

/// The characters of `cs` with white space trimmed from both ends.
pub fn trimmed(cs: &[char]) -> (r: Vec<char>)
    ensures
        r@ == trim(cs@),
{
    let (lo, hi) = trim_bounds(cs);
    slice_vec(cs, lo, hi)
}

/// `lit` followed by the characters `cs`.
pub fn lit_plus(lit: &str, cs: &[char]) -> (r: String)
    ensures
        r@ == lit@ + cs@,
{
    let mut m = String::new();
    push_str(&mut m, lit);
    let tail = string_of(cs);
    push_str(&mut m, tail.as_str());
    proof {
        assert(Seq::<char>::empty() + lit@ =~= lit@);
    }
    m
}

/// `lit` followed by `s`.
pub fn lit_plus_str(lit: &str, s: &str) -> (r: String)
    ensures
        r@ == lit@ + s@,
{
    let mut m = String::new();
    push_str(&mut m, lit);
    push_str(&mut m, s);
    proof {
        assert(Seq::<char>::empty() + lit@ =~= lit@);
    }
    m
}

/// The view of an optional string.
pub open spec fn opt_text(o: Option<String>) -> Option<Seq<char>> {
    match o {
        Some(s) => Some(s@),
        None => None,
    }
}

} // verus!

verus! {

/// The decimal digit for `d` (`0 <= d < 10`).
pub open spec fn digit_char(d: int) -> char {
    (d + '0' as int) as char
}

/// The decimal text of a natural number, as `to_string` writes it.
pub open spec fn nat_text(n: nat) -> Seq<char>
    decreases n,
{
    if n < 10 {
        seq![digit_char(n as int)]
    } else {
        nat_text(n / 10).push(digit_char((n % 10) as int))
    }
}

/// The decimal text of an integer, as `to_string` writes it.
pub open spec fn int_text(i: int) -> Seq<char> {
    if i < 0 {
        seq!['-'] + nat_text((-i) as nat)
    } else {
        nat_text(i as nat)
    }
}

fn digit_of(d: u128) -> (c: char)
    requires
        d < 10,
    ensures
        c == digit_char(d as int),
{
    let b: u8 = d as u8 + 48u8;
    let c = b as char;
    proof {
        assert(b as int == d as int + '0' as int);
    }
    c
}

/// Append the decimal text of `n`.
pub fn push_nat(s: &mut String, n: u128)
    ensures
        final(s)@ == old(s)@ + nat_text(n as nat),
    decreases n,
{
    if n >= 10 {
        push_nat(s, n / 10);
    }
    let c = digit_of(n % 10);
    push_char(s, c);
    proof {
        if n < 10 {
            assert(nat_text(n as nat) =~= seq![c]);
            assert(old(s)@.push(c) =~= old(s)@ + nat_text(n as nat));
        } else {
            assert(old(s)@ + nat_text(n as nat) =~= (old(s)@ + nat_text((n / 10) as nat)).push(c));
        }
    }
}

/// Append the decimal text of `i`.
pub fn push_int(s: &mut String, i: i128)
    ensures
        final(s)@ == old(s)@ + int_text(i as int),
{
    if i < 0 {
        push_char(s, '-');
        let m: u128 = if i == i128::MIN {
            170141183460469231731687303715884105728u128
        } else {
            (-i) as u128
        };
        push_nat(s, m);
        proof {
            assert(old(s)@.push('-') + nat_text(m as nat) =~= old(s)@ + int_text(i as int));
        }
    } else {
        push_nat(s, i as u128);
    }
}

/// The decimal text of a natural number.
pub fn nat_string(n: u128) -> (r: String)
    ensures
        r@ == nat_text(n as nat),
{
    let mut s = String::new();
    push_nat(&mut s, n);
    proof {
        assert(Seq::<char>::empty() + nat_text(n as nat) =~= nat_text(n as nat));
    }
    s
}

/// The decimal text of an integer.
pub fn int_string(i: i128) -> (r: String)
    ensures
        r@ == int_text(i as int),
{
    let mut s = String::new();
    push_int(&mut s, i);
    proof {
        assert(Seq::<char>::empty() + int_text(i as int) =~= int_text(i as int));
    }
    s
}

} // verus!

verus! {

/// Whether `t` occurs in `s`.
pub open spec fn has_infix(s: Seq<char>, t: Seq<char>) -> bool {
    exists|i: int| 0 <= i && i + t.len() <= s.len() && #[trigger] s.subrange(i, i + t.len()) == t
}

fn matches_at(cs: &Vec<char>, at: usize, t: &Vec<char>) -> (r: bool)
    requires
        at + t@.len() <= cs@.len(),
    ensures
        r == (cs@.subrange(at as int, at + t@.len()) == t@),
{
    let n = cs.len();
    let mut j: usize = 0;
    while j < t.len()
        invariant
            j <= t@.len(),
            n == cs@.len(),
            at + t@.len() <= cs@.len(),
            forall|k: int| 0 <= k < j ==> cs@[at + k] == t@[k],
        decreases t.len() - j,
    {
        if cs[at + j] != t[j] {
            proof {
                assert(cs@.subrange(at as int, at + t@.len())[j as int] != t@[j as int]);
            }
            return false;
        }
        j = j + 1;
    }
    proof {
        assert(cs@.subrange(at as int, at + t@.len()) =~= t@);
    }
    true
}

/// Whether `needle` occurs in `hay` (`str::contains`).
pub fn contains_str(hay: &str, needle: &str) -> (r: bool)
    ensures
        r == has_infix(hay@, needle@),
{
    let cs = chars_of(hay);
    let t = chars_of(needle);
    if t.len() > cs.len() {
        return false;
    }
    let last = cs.len() - t.len();
    let mut i: usize = 0;
    while i <= last
        invariant
            cs@ == hay@,
            t@ == needle@,
            last + t@.len() == cs@.len(),
            i <= last + 1,
            forall|k: int| 0 <= k < i ==> #[trigger] cs@.subrange(k, k + t@.len()) != t@,
        decreases last + 1 - i,
    {
        if matches_at(&cs, i, &t) {
            return true;
        }
        if i == last {
            return false;
        }
        i = i + 1;
    }
    false
}

} // verus!

verus! {

/// The position of the first `needle` in `hay` (as `str::find` locates
/// it, counted in characters), if `needle` occurs.
pub fn find_str(hay: &str, needle: &str) -> (r: Option<usize>)
    ensures
        match r {
            Some(i) => {
                &&& i + needle@.len() <= hay@.len()
                &&& hay@.subrange(i as int, i + needle@.len()) == needle@
                &&& forall|j: int| 0 <= j < i ==> #[trigger] hay@.subrange(j, j + needle@.len()) != needle@
            },
            None => !has_infix(hay@, needle@),
        },
{
    let cs = chars_of(hay);
    let t = chars_of(needle);
    if t.len() > cs.len() {
        return None;
    }
    let last = cs.len() - t.len();
    let mut i: usize = 0;
    while i <= last
        invariant
            cs@ == hay@,
            t@ == needle@,
            last + t@.len() == cs@.len(),
            i <= last + 1,
            forall|k: int| 0 <= k < i ==> #[trigger] cs@.subrange(k, k + t@.len()) != t@,
        decreases last + 1 - i,
    {
        if matches_at(&cs, i, &t) {
            return Some(i);
        }
        if i == last {
            return None;
        }
        i = i + 1;
    }
    None
}

} // verus!
