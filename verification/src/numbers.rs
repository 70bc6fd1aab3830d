//! Numeric token classification and parsing.
//!
//! Reference numbers in face corners are decimal integers; the parser here is
//! verified against an exact specification of Rust's 32-bit signed decimal
//! grammar (optional sign, one or more digits, value in range).  Vertex
//! components are floating-point tokens; the recognizer for them is verified
//! against the grammar that the standard library documents for parsing
//! floating-point values:
//!
//! ```text
//! Float  ::= Sign? ( 'inf' | 'infinity' | 'nan' | Number )
//! Number ::= Count '.'? Count? Exp? | '.' Count Exp?
//! Exp    ::= ('e' | 'E') Sign? Count
//! Sign   ::= '+' | '-'
//! Count  ::= Digit+
//! ```
//!
//! with `inf`, `infinity` and `nan` matched case-insensitively.  Every token
//! of this grammar parses successfully (out-of-range magnitudes round to an
//! infinity or to zero rather than failing), so membership in the grammar is
//! exactly parse success.  The component values themselves are carried
//! through the library as their tokens and only turned into machine numbers
//! by the unverified consumer.

use vstd::prelude::*;

verus! {

/// A decimal digit.
pub open spec fn is_digit(c: char) -> bool {
    '0' <= c && c <= '9'
}

/// The value of a decimal digit.
pub open spec fn digit_val(c: char) -> int {
    c as int - '0' as int
}

/// Every character of `s` is a decimal digit.
pub open spec fn all_digits(s: Seq<char>) -> bool {
    forall|i: int| 0 <= i < s.len() ==> is_digit(s[i])
}

/// The value of a digit string read in base ten, most significant first.
pub open spec fn dec_val(s: Seq<char>) -> int
    decreases s.len(),
{
    if s.len() == 0 {
        0
    } else {
        dec_val(s.drop_last()) * 10 + digit_val(s.last())
    }
}

/// Everything after an optional leading sign.
pub open spec fn strip_sign(t: Seq<char>) -> Seq<char> {
    if t.len() > 0 && (t[0] == '-' || t[0] == '+') {
        t.drop_first()
    } else {
        t
    }
}

/// What parsing `t` as a 32-bit signed integer returns: `Some` exactly when
/// `t` is an optional sign followed by one or more decimal digits whose
/// signed value is in range.
pub open spec fn spec_parse_i32(t: Seq<char>) -> Option<i32> {
    let neg = t.len() > 0 && t[0] == '-';
    let mag = strip_sign(t);
    if mag.len() == 0 || !all_digits(mag) {
        None
    } else {
        let v = if neg {
            -dec_val(mag)
        } else {
            dec_val(mag)
        };
        if i32::MIN <= v <= i32::MAX {
            Some(v as i32)
        } else {
            None
        }
    }
}

/// A digit string's value is nonnegative.
proof fn lemma_dec_val_nonneg(s: Seq<char>)
    requires
        all_digits(s),
    ensures
        dec_val(s) >= 0,
    decreases s.len(),
{
    if s.len() > 0 {
        assert(all_digits(s.drop_last())) by {
            assert(forall|i: int|
                0 <= i < s.len() - 1 ==> s.drop_last()[i] == s[i] && is_digit(s[i]));
        }
        lemma_dec_val_nonneg(s.drop_last());
        assert(is_digit(s.last()));
    }
}

/// Reading more digits can only increase a digit string's value.
proof fn lemma_dec_val_prefix(s: Seq<char>, i: int)
    requires
        all_digits(s),
        0 <= i <= s.len(),
    ensures
        dec_val(s) >= dec_val(s.take(i)),
    decreases s.len() - i,
{
    if i == s.len() {
        assert(s.take(i) =~= s);
    } else {
        let d = s.drop_last();
        assert(all_digits(d)) by {
            assert(forall|j: int| 0 <= j < d.len() ==> d[j] == s[j] && is_digit(s[j]));
        }
        assert(d.take(i) =~= s.take(i));
        lemma_dec_val_prefix(d, i);
        lemma_dec_val_nonneg(d);
        assert(is_digit(s.last()));
        assert(dec_val(s) == dec_val(d) * 10 + digit_val(s.last()));
        assert(dec_val(d) * 10 >= dec_val(d)) by (nonlinear_arith)
            requires
                dec_val(d) >= 0,
        ;
    }
}

/// Parses a decimal integer token, per [`spec_parse_i32`].
pub fn parse_i32_chars(t: &Vec<char>) -> (r: Option<i32>)
    ensures
        r == spec_parse_i32(t@),
{
    let n = t.len();
    let mut start: usize = 0;
    let mut neg = false;
    if n > 0 && (t[0] == '-' || t[0] == '+') {
        start = 1;
        neg = t[0] == '-';
    }
    let ghost mag = strip_sign(t@);
    proof {
        assert(mag =~= t@.subrange(start as int, n as int));
    }
    if start == n {
        return None;
    }
    let mut acc: u64 = 0;
    let mut idx: usize = start;
    while idx < n
        invariant
            start <= idx <= n,
            start < n,
            n == t.len(),
            mag == strip_sign(t@),
            neg == (t@.len() > 0 && t@[0] == '-'),
            mag =~= t@.subrange(start as int, n as int),
            acc == dec_val(mag.take(idx - start)),
            acc <= 2147483648,
            all_digits(mag.take(idx - start)),
        decreases n - idx,
    {
        let c = t[idx];
        proof {
            assert(mag[idx - start] == c);
        }
        if !(c >= '0' && c <= '9') {
            proof {
                assert(!all_digits(mag));
            }
            return None;
        }
        let d: u64 = ((c as u32) - 48) as u64;
        proof {
            assert(is_digit(c));
            assert(d == digit_val(c));
            assert(mag.take(idx + 1 - start).drop_last() =~= mag.take(idx - start));
            assert(mag.take(idx + 1 - start).last() == c);
            assert(all_digits(mag.take(idx + 1 - start)));
        }
        acc = acc * 10 + d;
        proof {
            assert(acc == dec_val(mag.take(idx + 1 - start)));
        }
        if acc > 2147483648 {
            proof {
                if all_digits(mag) {
                    lemma_dec_val_prefix(mag, idx + 1 - start);
                    assert(dec_val(mag) > 2147483648);
                }
                assert(spec_parse_i32(t@) is None);
            }
            return None;
        }
        idx = idx + 1;
    }
    proof {
        assert(mag.take(n - start) =~= mag);
    }
    if neg {
        let v: i64 = -(acc as i64);
        Some(v as i32)
    } else {
        if acc > 2147483647 {
            return None;
        }
        Some(acc as i32)
    }
}

/// The length of the longest prefix of `s` made of decimal digits.
pub open spec fn digit_run(s: Seq<char>) -> int
    decreases s.len(),
{
    if s.len() > 0 && is_digit(s[0]) {
        1 + digit_run(s.drop_first())
    } else {
        0
    }
}

/// `c` is `lo` or `up` (the two cases of one letter).
pub open spec fn either_case(c: char, lo: char, up: char) -> bool {
    c == lo || c == up
}

/// `b` is `inf`, `infinity` or `nan`, compared case-insensitively.
pub open spec fn is_special_float(b: Seq<char>) -> bool {
    (b.len() == 3 && either_case(b[0], 'i', 'I') && either_case(b[1], 'n', 'N') && either_case(
        b[2],
        'f',
        'F',
    )) || (b.len() == 8 && either_case(b[0], 'i', 'I') && either_case(b[1], 'n', 'N')
        && either_case(b[2], 'f', 'F') && either_case(b[3], 'i', 'I') && either_case(
        b[4],
        'n',
        'N',
    ) && either_case(b[5], 'i', 'I') && either_case(b[6], 't', 'T') && either_case(b[7], 'y', 'Y'))
        || (b.len() == 3 && either_case(b[0], 'n', 'N') && either_case(b[1], 'a', 'A')
        && either_case(b[2], 'n', 'N'))
}

/// `r` is an exponent part: `e` or `E`, an optional sign, then one or more
/// digits.
pub open spec fn is_exponent(r: Seq<char>) -> bool {
    r.len() > 0 && either_case(r[0], 'e', 'E') && {
        let b = strip_sign(r.drop_first());
        b.len() > 0 && all_digits(b)
    }
}

/// `b` is an unsigned number of the floating-point grammar: digits with an
/// optional point, optional fraction digits and an optional exponent, or a
/// point followed by fraction digits and an optional exponent.
pub open spec fn is_number(b: Seq<char>) -> bool {
    let k = digit_run(b);
    if k > 0 {
        let rest = b.skip(k);
        if rest.len() == 0 {
            true
        } else if rest[0] == '.' {
            let frac = rest.drop_first();
            let rest2 = frac.skip(digit_run(frac));
            rest2.len() == 0 || is_exponent(rest2)
        } else {
            is_exponent(rest)
        }
    } else if b.len() > 0 && b[0] == '.' {
        let frac = b.drop_first();
        let k2 = digit_run(frac);
        k2 > 0 && {
            let rest2 = frac.skip(k2);
            rest2.len() == 0 || is_exponent(rest2)
        }
    } else {
        false
    }
}

/// `t` is a token the standard library parses as a floating-point value: an
/// optional sign followed by a special name or a number.
pub open spec fn is_float_token(t: Seq<char>) -> bool {
    is_special_float(strip_sign(t)) || is_number(strip_sign(t))
}

/// The digit run of `s` is `k` exactly when the first `k` characters are
/// digits and the next one, if any, is not.
proof fn lemma_digit_run_is(s: Seq<char>, k: int)
    requires
        0 <= k <= s.len(),
        forall|i: int| 0 <= i < k ==> is_digit(s[i]),
        k == s.len() || !is_digit(s[k]),
    ensures
        digit_run(s) == k,
    decreases s.len(),
{
    if k == 0 {
    } else {
        let d = s.drop_first();
        assert(forall|i: int| 0 <= i < k - 1 ==> d[i] == s[i + 1] && is_digit(s[i + 1]));
        assert(k - 1 == d.len() || !is_digit(d[k - 1]));
        lemma_digit_run_is(d, k - 1);
    }
}

/// The characters before a digit run's end are digits; the one at its end,
/// if any, is not.
proof fn lemma_digit_run_props(s: Seq<char>)
    ensures
        0 <= digit_run(s) <= s.len(),
        forall|i: int| 0 <= i < digit_run(s) ==> is_digit(s[i]),
        digit_run(s) < s.len() ==> !is_digit(s[digit_run(s)]),
    decreases s.len(),
{
    if s.len() > 0 && is_digit(s[0]) {
        let d = s.drop_first();
        lemma_digit_run_props(d);
        assert(forall|i: int| 1 <= i < digit_run(s) ==> s[i] == d[i - 1] && is_digit(d[i - 1]));
    }
}

/// Scans the digit run of `t` starting at `from`; returns its end.
fn scan_digits(t: &Vec<char>, from: usize) -> (r: usize)
    requires
        from <= t.len(),
    ensures
        from <= r <= t.len(),
        r - from == digit_run(t@.skip(from as int)),
{
    let n = t.len();
    let mut idx: usize = from;
    while idx < n && t[idx] >= '0' && t[idx] <= '9'
        invariant
            from <= idx <= n,
            n == t.len(),
            forall|i: int| from <= i < idx ==> is_digit(t@[i]),
        decreases n - idx,
    {
        idx = idx + 1;
    }
    proof {
        let s = t@.skip(from as int);
        assert(forall|i: int| 0 <= i < idx - from ==> s[i] == t@[i + from] && is_digit(
            t@[i + from],
        ));
        if idx < n {
            assert(!is_digit(t@[idx as int]));
            assert(s[idx - from] == t@[idx as int]);
        }
        lemma_digit_run_is(s, idx - from);
    }
    idx
}

/// Decides [`is_exponent`] for the suffix of `t` starting at `from`.
fn check_exponent(t: &Vec<char>, from: usize) -> (r: bool)
    requires
        from <= t.len(),
    ensures
        r == is_exponent(t@.skip(from as int)),
{
    let n = t.len();
    let ghost s = t@.skip(from as int);
    if from == n {
        return false;
    }
    let c = t[from];
    if !(c == 'e' || c == 'E') {
        return false;
    }
    let mut p = from + 1;
    if p < n && (t[p] == '-' || t[p] == '+') {
        p = p + 1;
    }
    let ghost b = strip_sign(s.drop_first());
    proof {
        assert(s.drop_first() =~= t@.skip(from + 1));
        assert(b =~= t@.skip(p as int));
    }
    if p == n {
        return false;
    }
    let e = scan_digits(t, p);
    proof {
        lemma_digit_run_props(b);
        if e == n {
            assert(digit_run(b) == b.len());
            assert(all_digits(b));
        } else {
            assert(digit_run(b) < b.len());
            assert(!is_digit(b[digit_run(b)]));
            assert(!all_digits(b));
        }
    }
    e == n
}

/// Decides [`is_float_token`]: whether the standard library parses `t` as a
/// floating-point value.
pub fn is_float_token_chars(t: &Vec<char>) -> (r: bool)
    ensures
        r == is_float_token(t@),
{
    let n = t.len();
    let mut start: usize = 0;
    if n > 0 && (t[0] == '-' || t[0] == '+') {
        start = 1;
    }
    let ghost b = strip_sign(t@);
    proof {
        assert(b =~= t@.skip(start as int));
    }
    let m = n - start;
    // Special names: inf, infinity, nan (any letter case).
    if m == 3 {
        let c0 = t[start];
        let c1 = t[start + 1];
        let c2 = t[start + 2];
        if ((c0 == 'i' || c0 == 'I') && (c1 == 'n' || c1 == 'N') && (c2 == 'f' || c2 == 'F')) || ((
        c0 == 'n' || c0 == 'N') && (c1 == 'a' || c1 == 'A') && (c2 == 'n' || c2 == 'N')) {
            return true;
        }
    }
    if m == 8 {
        let ok = (t[start] == 'i' || t[start] == 'I') && (t[start + 1] == 'n' || t[start + 1]
            == 'N') && (t[start + 2] == 'f' || t[start + 2] == 'F') && (t[start + 3] == 'i'
            || t[start + 3] == 'I') && (t[start + 4] == 'n' || t[start + 4] == 'N') && (t[start + 5]
            == 'i' || t[start + 5] == 'I') && (t[start + 6] == 't' || t[start + 6] == 'T') && (
        t[start + 7] == 'y' || t[start + 7] == 'Y');
        if ok {
            return true;
        }
    }
    // Numbers.
    let k_end = scan_digits(t, start);
    proof {
        assert(digit_run(b) == k_end - start);
    }
    if k_end > start {
        proof {
            assert(b.skip(k_end - start) =~= t@.skip(k_end as int));
        }
        if k_end == n {
            return true;
        }
        if t[k_end] == '.' {
            let frac_start = k_end + 1;
            let ghost frac = b.skip(k_end - start).drop_first();
            proof {
                assert(frac =~= t@.skip(frac_start as int));
            }
            let f_end = scan_digits(t, frac_start);
            proof {
                assert(frac.skip(digit_run(frac)) =~= t@.skip(f_end as int));
            }
            if f_end == n {
                return true;
            }
            return check_exponent(t, f_end);
        }
        return check_exponent(t, k_end);
    }
    if start < n && t[start] == '.' {
        let frac_start = start + 1;
        let ghost frac = b.drop_first();
        proof {
            assert(frac =~= t@.skip(frac_start as int));
        }
        let f_end = scan_digits(t, frac_start);
        if f_end == frac_start {
            return false;
        }
        proof {
            assert(frac.skip(digit_run(frac)) =~= t@.skip(f_end as int));
        }
        if f_end == n {
            return true;
        }
        return check_exponent(t, f_end);
    }
    false
}

/// Relies on `String::from_iter` (through `Iterator::collect`): the returned
/// string holds exactly the characters of `t`, in order.
#[verifier::external_body]
pub fn string_from_chars(t: &Vec<char>) -> (r: String)
    ensures
        r@ == t@,
{
    t.iter().collect()
}

} // verus!
