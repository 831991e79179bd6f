//! Decimal rendering and parsing, and ASCII helpers.
//!
//! The wire encodings and the firmware's stored settings carry numbers
//! as decimal text; the admission keys carry ports the same way.  The
//! renderers and parsers here are exact: each is specified against a
//! recursive definition of decimal notation.

use vstd::prelude::*;
use vstd::string::StrSliceExecFns;
use vstd::string::StringSliceAdditionalSpecFns;

verus! {

/// The character for one decimal digit.
pub open spec fn digit_char(d: int) -> char {
    if d == 0 { '0' }
    else if d == 1 { '1' }
    else if d == 2 { '2' }
    else if d == 3 { '3' }
    else if d == 4 { '4' }
    else if d == 5 { '5' }
    else if d == 6 { '6' }
    else if d == 7 { '7' }
    else if d == 8 { '8' }
    else { '9' }
}

/// Decimal notation of a non-negative integer, most significant digit
/// first, no leading zeros (except for zero itself).
pub open spec fn dec_chars(n: nat) -> Seq<char>
    decreases n,
{
    if n < 10 {
        seq![digit_char(n as int)]
    } else {
        dec_chars(n / 10).push(digit_char((n % 10) as int))
    }
}

/// Decimal notation of a signed integer: a minus sign before the
/// magnitude when negative.
pub open spec fn dec_chars_signed(n: int) -> Seq<char> {
    if n >= 0 {
        dec_chars(n as nat)
    } else {
        seq!['-'] + dec_chars((-n) as nat)
    }
}

/// A one-character string for a digit.
fn digit_str(d: u8) -> (r: &'static str)
    requires
        d < 10,
    ensures
        r@ =~= seq![digit_char(d as int)],
{
    proof {
        reveal_strlit("0");
        reveal_strlit("1");
        reveal_strlit("2");
        reveal_strlit("3");
        reveal_strlit("4");
        reveal_strlit("5");
        reveal_strlit("6");
        reveal_strlit("7");
        reveal_strlit("8");
        reveal_strlit("9");
    }
    if d == 0 { "0" }
    else if d == 1 { "1" }
    else if d == 2 { "2" }
    else if d == 3 { "3" }
    else if d == 4 { "4" }
    else if d == 5 { "5" }
    else if d == 6 { "6" }
    else if d == 7 { "7" }
    else if d == 8 { "8" }
    else { "9" }
}

/// Renders a non-negative integer in decimal.
pub fn u64_to_string(n: u64) -> (s: String)
    ensures
        s@ == dec_chars(n as nat),
    decreases n,
{
    if n < 10 {
        digit_str(n as u8).to_owned()
    } else {
        let mut s = u64_to_string(n / 10);
        s.append(digit_str((n % 10) as u8));
        s
    }
}

/// Renders a signed integer in decimal.
pub fn i64_to_string(n: i64) -> (s: String)
    ensures
        s@ == dec_chars_signed(n as int),
{
    if n >= 0 {
        u64_to_string(n as u64)
    } else {
        let m: u64 = if n == i64::MIN {
            9223372036854775808u64
        } else {
            (-n) as u64
        };
        let mut s: String = "-".to_owned();
        let digits = u64_to_string(m);
        s.append(digits.as_str());
        proof {
            reveal_strlit("-");
            assert(s@ =~= seq!['-'] + dec_chars(m as nat));
        }
        s
    }
}

/// True of a decimal digit byte.
pub open spec fn is_dec_digit(b: u8) -> bool {
    48 <= b <= 57
}

/// Every byte is a decimal digit.
pub open spec fn all_dec_digits(s: Seq<u8>) -> bool {
    forall|i: int| 0 <= i < s.len() ==> is_dec_digit(#[trigger] s[i])
}

/// The value of a digit string, most significant digit first.
pub open spec fn digits_value(s: Seq<u8>) -> int
    decreases s.len(),
{
    if s.len() == 0 {
        0
    } else {
        digits_value(s.drop_last()) * 10 + (s.last() - 48)
    }
}

/// The digits after an optional leading plus sign, as the unsigned
/// integer parsers of std see them.
pub open spec fn unsigned_body(s: Seq<u8>) -> Seq<u8> {
    if s.len() > 0 && s[0] == 43 {
        s.subrange(1, s.len() as int)
    } else {
        s
    }
}

/// What it means for a byte string to parse as an unsigned integer no
/// larger than `max`: an optional plus sign, then at least one digit,
/// with the value in range.  This is how std parses `u8` and `u16`
/// (leading zeros allowed).
pub open spec fn parses_as_uint(s: Seq<u8>, max: int) -> bool {
    &&& unsigned_body(s).len() >= 1
    &&& all_dec_digits(unsigned_body(s))
    &&& digits_value(unsigned_body(s)) <= max
}

/// A longer digit string never has a smaller value.
proof fn lemma_digits_value_prefix_le(s: Seq<u8>, i: int, j: int)
    requires
        0 <= i <= j <= s.len(),
        all_dec_digits(s),
    ensures
        digits_value(s.subrange(0, i)) <= digits_value(s.subrange(0, j)),
    decreases j - i,
{
    if i < j {
        lemma_digits_value_prefix_le(s, i, j - 1);
        let shorter = s.subrange(0, j - 1);
        let longer = s.subrange(0, j);
        assert(longer.drop_last() =~= shorter);
        assert(digits_value(shorter) >= 0) by {
            lemma_digits_value_nonneg(shorter);
        }
    }
}

/// Digit strings have non-negative values.
proof fn lemma_digits_value_nonneg(s: Seq<u8>)
    requires
        all_dec_digits(s),
    ensures
        digits_value(s) >= 0,
    decreases s.len(),
{
    if s.len() > 0 {
        assert(all_dec_digits(s.drop_last())) by {
            assert(forall|i: int| 0 <= i < s.len() - 1 ==> s.drop_last()[i] == s[i]);
        }
        lemma_digits_value_nonneg(s.drop_last());
    }
}

/// Parses an unsigned decimal integer of at most `max`, as std does:
/// an optional plus sign, then digits.  Returns the value exactly when
/// the input parses and is in range.
pub fn parse_uint(s: &[u8], max: u64) -> (r: Option<u64>)
    ensures
        r is Some <==> parses_as_uint(s@, max as int),
        r matches Some(v) ==> v == digits_value(unsigned_body(s@)) && v <= max,
{
    let body_start: usize = if s.len() > 0 && s[0] == 43 { 1 } else { 0 };
    let ghost body = unsigned_body(s@);
    proof {
        assert(body =~= s@.subrange(body_start as int, s@.len() as int));
    }
    if s.len() == body_start {
        return None;
    }
    let mut acc: u64 = 0;
    let mut i: usize = body_start;
    while i < s.len()
        invariant
            body_start <= i <= s.len(),
            body == unsigned_body(s@),
            body == s@.subrange(body_start as int, s@.len() as int),
            all_dec_digits(body.subrange(0, i - body_start)),
            acc == digits_value(body.subrange(0, i - body_start)),
            acc <= max,
        decreases s.len() - i,
    {
        let b = s[i];
        if b < 48 || b > 57 {
            proof {
                assert(body[i - body_start] == b);
                assert(!is_dec_digit(body[i - body_start]));
                assert(!all_dec_digits(body));
            }
            return None;
        }
        let d: u64 = (b - 48) as u64;
        let ghost prefix = body.subrange(0, i - body_start);
        let ghost extended = body.subrange(0, i + 1 - body_start);
        proof {
            assert(extended.drop_last() =~= prefix);
            assert(extended.last() == b);
        }
        if d > max || acc > (max - d) / 10 {
            proof {
                assert(digits_value(extended) == acc * 10 + d);
                if d <= max {
                    assert(acc >= (max - d) / 10 + 1);
                    assert(((max - d) / 10 + 1) * 10 > max - d) by (nonlinear_arith);
                    assert(acc * 10 >= ((max - d) / 10 + 1) * 10) by (nonlinear_arith)
                        requires acc >= (max - d) / 10 + 1;
                }
                assert(digits_value(extended) > max);
                if all_dec_digits(body) {
                    lemma_digits_value_prefix_le(body, i + 1 - body_start, body.len() as int);
                    assert(body.subrange(0, body.len() as int) =~= body);
                    assert(digits_value(body) > max);
                }
            }
            return None;
        }
        proof {
            assert(acc * 10 + d <= max) by (nonlinear_arith)
                requires acc <= (max - d) / 10, d <= max;
        }
        acc = acc * 10 + d;
        i = i + 1;
    }
    proof {
        assert(body.subrange(0, body.len() as int) =~= body);
    }
    Some(acc)
}

/// ASCII whitespace, as the stored firmware settings may carry around
/// their values.
pub open spec fn is_ascii_ws(b: u8) -> bool {
    b == 32 || b == 9 || b == 10 || b == 13
}

/// The byte string with ASCII whitespace removed from both ends.
pub open spec fn spec_trim(s: Seq<u8>) -> Seq<u8>
    decreases s.len(),
{
    if s.len() == 0 {
        s
    } else if is_ascii_ws(s[0]) {
        spec_trim(s.subrange(1, s.len() as int))
    } else if is_ascii_ws(s.last()) {
        spec_trim(s.drop_last())
    } else {
        s
    }
}

/// Removes ASCII whitespace from both ends.
pub fn trim_bytes(s: &[u8]) -> (r: Vec<u8>)
    ensures
        r@ == spec_trim(s@),
{
    let mut lo: usize = 0;
    let mut hi: usize = s.len();
    proof {
        assert(s@.subrange(0, s@.len() as int) =~= s@);
    }
    while lo < hi && (s[lo] == 32 || s[lo] == 9 || s[lo] == 10 || s[lo] == 13)
        invariant
            0 <= lo <= hi <= s.len(),
            spec_trim(s@) == spec_trim(s@.subrange(lo as int, hi as int)),
            hi == s.len(),
        decreases hi - lo,
    {
        proof {
            let cur = s@.subrange(lo as int, hi as int);
            assert(cur.subrange(1, cur.len() as int) =~= s@.subrange(lo + 1, hi as int));
        }
        lo = lo + 1;
    }
    while lo < hi && (s[hi - 1] == 32 || s[hi - 1] == 9 || s[hi - 1] == 10 || s[hi - 1] == 13)
        invariant
            0 <= lo <= hi <= s.len(),
            spec_trim(s@) == spec_trim(s@.subrange(lo as int, hi as int)),
            lo < hi ==> !is_ascii_ws(s@.subrange(lo as int, hi as int)[0]),
        decreases hi,
    {
        proof {
            let cur = s@.subrange(lo as int, hi as int);
            assert(cur.drop_last() =~= s@.subrange(lo as int, hi - 1));
        }
        hi = hi - 1;
    }
    let mut out: Vec<u8> = Vec::new();
    let mut i: usize = lo;
    while i < hi
        invariant
            lo <= i <= hi <= s.len(),
            out@ == s@.subrange(lo as int, i as int),
        decreases hi - i,
    {
        out.push(s[i]);
        proof {
            assert(out@ =~= s@.subrange(lo as int, i + 1));
        }
        i = i + 1;
    }
    proof {
        let cur = s@.subrange(lo as int, hi as int);
        assert(out@ =~= cur);
        if cur.len() > 0 {
            assert(!is_ascii_ws(cur[0]) && !is_ascii_ws(cur.last()));
        }
    }
    out
}

/// The bytes of a string, for the parsers here.
pub fn string_bytes(s: &str) -> (r: Vec<u8>)
    ensures
        r@ == s.spec_bytes(),
        s.is_ascii() ==> r@ == Seq::new(s@.len(), |i: int| s@[i] as u8),
{
    proof {
        vstd::string::is_ascii_spec_bytes(s);
    }
    s.as_bytes_vec()
}

/// The byte for one decimal digit.
pub open spec fn digit_byte(d: int) -> u8 {
    (48 + d) as u8
}

/// Decimal notation of a non-negative integer, as bytes.
pub open spec fn dec_bytes(n: nat) -> Seq<u8>
    decreases n,
{
    if n < 10 {
        seq![digit_byte(n as int)]
    } else {
        dec_bytes(n / 10).push(digit_byte((n % 10) as int))
    }
}

/// Decimal notation of a signed integer, as bytes.
pub open spec fn dec_bytes_signed(n: int) -> Seq<u8> {
    if n >= 0 {
        dec_bytes(n as nat)
    } else {
        seq![45u8] + dec_bytes((-n) as nat)
    }
}

/// Renders a non-negative integer in decimal, as bytes.
pub fn u64_to_dec_bytes(n: u64) -> (r: Vec<u8>)
    ensures
        r@ == dec_bytes(n as nat),
    decreases n,
{
    if n < 10 {
        let mut out: Vec<u8> = Vec::new();
        out.push(48 + n as u8);
        proof {
            assert(out@ =~= seq![digit_byte(n as int)]);
        }
        out
    } else {
        let mut out = u64_to_dec_bytes(n / 10);
        out.push(48 + (n % 10) as u8);
        out
    }
}

/// Renders a signed integer in decimal, as bytes.
pub fn i64_to_dec_bytes(n: i64) -> (r: Vec<u8>)
    ensures
        r@ == dec_bytes_signed(n as int),
{
    if n >= 0 {
        u64_to_dec_bytes(n as u64)
    } else {
        let m: u64 = if n == i64::MIN {
            9223372036854775808u64
        } else {
            (-n) as u64
        };
        let mut out: Vec<u8> = Vec::new();
        out.push(45);
        let mut digits = u64_to_dec_bytes(m);
        out.append(&mut digits);
        proof {
            assert(out@ =~= seq![45u8] + dec_bytes(m as nat));
        }
        out
    }
}

/// The byte at this position is a dot.
pub open spec fn dot_at(s: Seq<u8>, i: int) -> bool {
    s[i] == 46
}

/// A dotted quad whose four parts each parse as a byte.
pub open spec fn spec_valid_ipv4(s: Seq<u8>) -> bool {
    exists|d1: int, d2: int, d3: int|
        {
            &&& 0 <= d1 < d2 < d3 < s.len()
            &&& #[trigger] dot_at(s, d1)
            &&& #[trigger] dot_at(s, d2)
            &&& #[trigger] dot_at(s, d3)
            &&& (forall|j: int|
                0 <= j < s.len() && j != d1 && j != d2 && j != d3 ==> !(#[trigger] dot_at(s, j)))
            &&& parses_as_uint(s.subrange(0, d1), 255)
            &&& parses_as_uint(s.subrange(d1 + 1, d2), 255)
            &&& parses_as_uint(s.subrange(d2 + 1, d3), 255)
            &&& parses_as_uint(s.subrange(d3 + 1, s.len() as int), 255)
        }
}

/// Copies a byte range.
pub fn copy_range(s: &[u8], from: usize, to: usize) -> (r: Vec<u8>)
    requires
        from <= to <= s@.len(),
    ensures
        r@ == s@.subrange(from as int, to as int),
{
    let mut out: Vec<u8> = Vec::new();
    let mut i: usize = from;
    while i < to
        invariant
            from <= i <= to <= s@.len(),
            out@ == s@.subrange(from as int, i as int),
        decreases to - i,
    {
        out.push(s[i]);
        proof {
            assert(out@ =~= s@.subrange(from as int, i + 1));
        }
        i = i + 1;
    }
    out
}

/// Decides `spec_valid_ipv4`.
pub fn validate_ipv4(s: &[u8]) -> (r: bool)
    ensures
        r == spec_valid_ipv4(s@),
{
    let n = s.len();
    let mut dots: Vec<usize> = Vec::new();
    let mut i: usize = 0;
    while i < n
        invariant
            0 <= i <= n == s@.len(),
            forall|k: int| 0 <= k < dots@.len() ==> 0 <= #[trigger] dots@[k] < i,
            forall|k: int| 0 <= k < dots@.len() ==> dot_at(s@, #[trigger] dots@[k] as int),
            forall|a: int, b: int| 0 <= a < b < dots@.len() ==> dots@[a] < dots@[b],
            forall|j: int|
                0 <= j < i && dot_at(s@, j) ==> exists|k: int|
                    0 <= k < dots@.len() && #[trigger] dots@[k] == j,
        decreases n - i,
    {
        if s[i] == 46 {
            let ghost before = dots@;
            dots.push(i);
            proof {
                assert(forall|k: int| 0 <= k < before.len() ==> dots@[k] == #[trigger] before[k]);
                assert(dots@[before.len() as int] == i);
            }
        }
        i = i + 1;
    }
    if dots.len() != 3 {
        proof {
            if spec_valid_ipv4(s@) {
                let (d1, d2, d3) = choose|d1: int, d2: int, d3: int|
                    {
                        &&& 0 <= d1 < d2 < d3 < s@.len()
                        &&& #[trigger] dot_at(s@, d1)
                        &&& #[trigger] dot_at(s@, d2)
                        &&& #[trigger] dot_at(s@, d3)
                        &&& (forall|j: int|
                            0 <= j < s@.len() && j != d1 && j != d2 && j != d3 ==> !(
                            #[trigger] dot_at(s@, j)))
                        &&& parses_as_uint(s@.subrange(0, d1), 255)
                        &&& parses_as_uint(s@.subrange(d1 + 1, d2), 255)
                        &&& parses_as_uint(s@.subrange(d2 + 1, d3), 255)
                        &&& parses_as_uint(s@.subrange(d3 + 1, s@.len() as int), 255)
                    };
                // The collected dots are exactly {d1, d2, d3}, in order.
                assert(exists|k: int| 0 <= k < dots@.len() && #[trigger] dots@[k] == d1);
                assert(exists|k: int| 0 <= k < dots@.len() && #[trigger] dots@[k] == d2);
                assert(exists|k: int| 0 <= k < dots@.len() && #[trigger] dots@[k] == d3);
                if dots@.len() < 3 {
                    let k1 = choose|k: int| 0 <= k < dots@.len() && #[trigger] dots@[k] == d1;
                    let k2 = choose|k: int| 0 <= k < dots@.len() && #[trigger] dots@[k] == d2;
                    let k3 = choose|k: int| 0 <= k < dots@.len() && #[trigger] dots@[k] == d3;
                    assert(k1 != k2 && k2 != k3 && k1 != k3);
                    assert(false);
                } else {
                    // Four or more dots: one of them is none of d1, d2, d3,
                    // contradicting that there are no other dots.
                    assert(dots@.len() >= 4);
                    assert(dots@[0] < dots@[1] && dots@[1] < dots@[2] && dots@[2] < dots@[3]);
                    assert(forall|k: int|
                        0 <= k < dots@.len() ==> dot_at(s@, #[trigger] dots@[k] as int));
                    let e0 = dots@[0] as int;
                    let e1 = dots@[1] as int;
                    let e2 = dots@[2] as int;
                    let e3 = dots@[3] as int;
                    assert(e0 == d1 || e0 == d2 || e0 == d3);
                    assert(e1 == d1 || e1 == d2 || e1 == d3);
                    assert(e2 == d1 || e2 == d2 || e2 == d3);
                    assert(e3 == d1 || e3 == d2 || e3 == d3);
                    assert(false);
                }
            }
        }
        return false;
    }
    let d1 = dots[0];
    let d2 = dots[1];
    let d3 = dots[2];
    proof {
        assert(dots@[0] < dots@[1] && dots@[1] < dots@[2]);
        assert(forall|j: int|
            0 <= j < s@.len() && dot_at(s@, j) ==> j == d1 || j == d2 || j == d3) by {
            assert forall|j: int|
                0 <= j < s@.len() && dot_at(s@, j) implies j == d1 || j == d2 || j == d3 by {
                let k = choose|k: int| 0 <= k < dots@.len() && #[trigger] dots@[k] == j;
                assert(k == 0 || k == 1 || k == 2);
            };
        };
    }
    let p1 = copy_range(s, 0, d1);
    let p2 = copy_range(s, d1 + 1, d2);
    let p3 = copy_range(s, d2 + 1, d3);
    let p4 = copy_range(s, d3 + 1, n);
    let ok = parse_uint(p1.as_slice(), 255).is_some() && parse_uint(p2.as_slice(), 255).is_some()
        && parse_uint(p3.as_slice(), 255).is_some() && parse_uint(p4.as_slice(), 255).is_some();
    proof {
        if ok {
            assert(spec_valid_ipv4(s@)) by {
                assert(0 <= d1 < d2 < d3 < s@.len());
                assert(dot_at(s@, d1 as int) && dot_at(s@, d2 as int) && dot_at(s@, d3 as int));
            };
        } else {
            if spec_valid_ipv4(s@) {
                let (e1, e2, e3) = choose|e1: int, e2: int, e3: int|
                    {
                        &&& 0 <= e1 < e2 < e3 < s@.len()
                        &&& #[trigger] dot_at(s@, e1)
                        &&& #[trigger] dot_at(s@, e2)
                        &&& #[trigger] dot_at(s@, e3)
                        &&& (forall|j: int|
                            0 <= j < s@.len() && j != e1 && j != e2 && j != e3 ==> !(
                            #[trigger] dot_at(s@, j)))
                        &&& parses_as_uint(s@.subrange(0, e1), 255)
                        &&& parses_as_uint(s@.subrange(e1 + 1, e2), 255)
                        &&& parses_as_uint(s@.subrange(e2 + 1, e3), 255)
                        &&& parses_as_uint(s@.subrange(e3 + 1, s@.len() as int), 255)
                    };
                assert(e1 == d1 && e2 == d2 && e3 == d3);
                assert(false);
            }
        }
    }
    ok
}


/// Decimal renderings are digit strings: nonempty, digits only.
pub proof fn lemma_dec_bytes_digits(n: nat)
    ensures
        dec_bytes(n).len() >= 1,
        all_dec_digits(dec_bytes(n)),
    decreases n,
{
    if n >= 10 {
        lemma_dec_bytes_digits(n / 10);
        let whole = dec_bytes(n);
        assert(whole.drop_last() == dec_bytes(n / 10));
        assert(forall|i: int|
            0 <= i < whole.len() - 1 ==> whole[i] == #[trigger] dec_bytes(n / 10)[i]);
    }
}

/// A decimal rendering parses back to its number.
pub proof fn lemma_dec_bytes_value(n: nat)
    ensures
        digits_value(dec_bytes(n)) == n,
    decreases n,
{
    if n < 10 {
        let whole = dec_bytes(n);
        assert(whole == seq![digit_byte(n as int)]);
        assert(whole.len() == 1);
        assert(whole.drop_last() =~= Seq::<u8>::empty());
        assert(digits_value(whole.drop_last()) == 0);
        assert(whole.last() == digit_byte(n as int));
        assert(digit_byte(n as int) - 48 == n);
        assert(digits_value(whole) == digits_value(whole.drop_last()) * 10 + (whole.last() - 48));
    } else {
        lemma_dec_bytes_value(n / 10);
        let whole = dec_bytes(n);
        assert(whole == dec_bytes(n / 10).push(digit_byte((n % 10) as int)));
        assert(whole.drop_last() =~= dec_bytes(n / 10));
        assert(whole.last() == digit_byte((n % 10) as int));
        assert(whole.len() == dec_bytes(n / 10).len() + 1 >= 1);
        assert(digits_value(whole) == digits_value(whole.drop_last()) * 10 + (whole.last() - 48));
        assert(digit_byte((n % 10) as int) - 48 == n % 10);
        assert(n / 10 * 10 + n % 10 == n) by {
            vstd::arithmetic::div_mod::lemma_fundamental_div_mod(n as int, 10);
        };
    }
}

} // verus!
