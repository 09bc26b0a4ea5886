//! Decimal rendering and parsing for the integers that appear in query
//! strings, specified against a mathematical digit representation and
//! matching Rust's `i64::from_str` on every input.

use vstd::prelude::*;
use vstd::arithmetic::div_mod::{
    lemma_div_pos_is_pos, lemma_fundamental_div_mod, lemma_mod_division_less_than_divisor,
};
use vstd::string::{StrSliceExecFns, StringExecFns};

verus! {

pub open spec fn is_digit(c: char) -> bool {
    '0' <= c && c <= '9'
}

pub open spec fn digit_val(c: char) -> int {
    c as int - '0' as int
}

pub open spec fn dec_digit(d: int) -> char {
    if d == 0 {
        '0'
    } else if d == 1 {
        '1'
    } else if d == 2 {
        '2'
    } else if d == 3 {
        '3'
    } else if d == 4 {
        '4'
    } else if d == 5 {
        '5'
    } else if d == 6 {
        '6'
    } else if d == 7 {
        '7'
    } else if d == 8 {
        '8'
    } else {
        '9'
    }
}

/// The usual decimal rendering of `n`: no sign, no leading zeros
/// (except for `n == 0` itself).
pub open spec fn dec_rep(n: nat) -> Seq<char>
    decreases n,
{
    if n < 10 {
        seq![dec_digit(n as int)]
    } else {
        dec_rep(n / 10) + seq![dec_digit((n % 10) as int)]
    }
}

/// Decimal rendering of a signed number: a leading '-' for negatives.
pub open spec fn int_rep(n: int) -> Seq<char> {
    if n < 0 {
        seq!['-'] + dec_rep((-n) as nat)
    } else {
        dec_rep(n as nat)
    }
}

pub open spec fn all_digits(s: Seq<char>) -> bool {
    forall|i: int| 0 <= i < s.len() ==> is_digit(s[i])
}

/// The number denoted by a digit string, most significant digit first.
pub open spec fn digits_val(s: Seq<char>) -> int
    decreases s.len(),
{
    if s.len() == 0 {
        0
    } else {
        digits_val(s.drop_last()) * 10 + digit_val(s.last())
    }
}

/// The digits of a decimal literal, after any leading sign.
pub open spec fn sign_digits(s: Seq<char>) -> Seq<char> {
    if s.len() > 0 && (s[0] == '-' || s[0] == '+') {
        s.drop_first()
    } else {
        s
    }
}

pub open spec fn sign_neg(s: Seq<char>) -> bool {
    s.len() > 0 && s[0] == '-'
}

/// What Rust's `i64::from_str` accepts and returns: an optional `+` or `-`
/// sign, then one or more ASCII digits denoting a value in range.
pub open spec fn parse_i64_spec(s: Seq<char>) -> Option<i64> {
    let ds = sign_digits(s);
    if ds.len() == 0 || !all_digits(ds) {
        None
    } else {
        let v = if sign_neg(s) {
            -digits_val(ds)
        } else {
            digits_val(ds)
        };
        if i64::MIN <= v <= i64::MAX {
            Some(v as i64)
        } else {
            None
        }
    }
}

/// What Rust's `bool::from_str` accepts: exactly "true" or "false".
pub open spec fn parse_bool_spec(s: Seq<char>) -> Option<bool> {
    if s == "true"@ {
        Some(true)
    } else if s == "false"@ {
        Some(false)
    } else {
        None
    }
}

pub open spec fn bool_rep(b: bool) -> Seq<char> {
    if b {
        "true"@
    } else {
        "false"@
    }
}

pub proof fn lemma_digits_val_nonneg(s: Seq<char>)
    requires
        all_digits(s),
    ensures
        digits_val(s) >= 0,
    decreases s.len(),
{
    if s.len() > 0 {
        lemma_digits_val_nonneg(s.drop_last());
    }
}

/// Extending a digit string on the right can only increase its value.
pub proof fn lemma_digits_val_prefix_le(s: Seq<char>, k: int)
    requires
        all_digits(s),
        0 <= k <= s.len(),
    ensures
        digits_val(s.take(k)) <= digits_val(s),
    decreases s.len() - k,
{
    if k < s.len() {
        let t = s.take(k + 1);
        assert(t.drop_last() =~= s.take(k));
        assert(all_digits(t));
        lemma_digits_val_nonneg(s.take(k));
        lemma_digits_val_prefix_le(s, k + 1);
        assert(digits_val(t) == digits_val(s.take(k)) * 10 + digit_val(s[k]));
        assert(digits_val(s.take(k)) * 10 >= digits_val(s.take(k))) by {
            lemma_digits_val_nonneg(s.take(k));
        }
    } else {
        assert(s.take(k) =~= s);
    }
}

pub proof fn lemma_dec_rep_digits(n: nat)
    ensures
        dec_rep(n).len() >= 1,
        all_digits(dec_rep(n)),
        digits_val(dec_rep(n)) == n,
    decreases n,
{
    if n < 10 {
        assert(dec_rep(n).drop_last() =~= Seq::<char>::empty());
        assert(digits_val(dec_rep(n)) == digits_val(Seq::<char>::empty()) * 10 + digit_val(
            dec_digit(n as int),
        ));
    } else {
        lemma_fundamental_div_mod(n as int, 10);
        lemma_mod_division_less_than_divisor(n as int, 10);
        lemma_div_pos_is_pos(n as int, 10);
        lemma_dec_rep_digits(n / 10);
        let s = dec_rep(n);
        assert(s.drop_last() =~= dec_rep(n / 10));
        assert(s.last() == dec_digit((n % 10) as int));
        assert(digits_val(s) == digits_val(dec_rep(n / 10)) * 10 + digit_val(
            dec_digit((n % 10) as int),
        ));
        assert(digit_val(dec_digit((n % 10) as int)) == n % 10);
        assert(forall|i: int|
            0 <= i < s.len() ==> is_digit(
                #[trigger] s[i],
            )) by {
            assert(forall|i: int| 0 <= i < s.len() - 1 ==> s[i] == dec_rep(n / 10)[i]);
        }
    }
}

/// Rendering then parsing is the identity on every `i64`.
pub proof fn lemma_parse_int_rep(n: i64)
    ensures
        parse_i64_spec(int_rep(n as int)) == Some(n),
{
    if n >= 0 {
        lemma_dec_rep_digits(n as nat);
        let s = dec_rep(n as nat);
        assert(is_digit(s[0]));
        assert(s[0] != '-' && s[0] != '+');
        assert(parse_i64_spec(s) == Some(n));
    } else {
        lemma_dec_rep_digits((-n) as nat);
        let d = dec_rep((-n) as nat);
        let s = seq!['-'] + d;
        assert(int_rep(n as int) == s);
        assert(s[0] == '-');
        assert(s.drop_first() =~= d);
        lemma_digits_val_nonneg(d);
        assert(parse_i64_spec(s) == Some(n));
    }
}

/// Digit strings contain neither '&' nor '=' nor a separator: every
/// character of a rendered integer is a digit or the leading '-'.
pub proof fn lemma_int_rep_chars(n: int)
    ensures
        forall|i: int|
            0 <= i < int_rep(n).len() ==> (is_digit(#[trigger] int_rep(n)[i]) || int_rep(n)[i]
                == '-'),
{
    if n < 0 {
        lemma_dec_rep_digits((-n) as nat);
        assert(forall|i: int|
            1 <= i < int_rep(n).len() ==> int_rep(n)[i] == dec_rep((-n) as nat)[i - 1]);
    } else {
        lemma_dec_rep_digits(n as nat);
    }
}

fn digit_str(d: u64) -> (r: &'static str)
    requires
        d < 10,
    ensures
        r@ =~= seq![dec_digit(d as int)],
{
    proof {
        reveal_strlit("0");
        reveal_strlit("1");
        reveal_strlit("2");
        reveal_strlit("3");
        reveal_strlit("4");
        reveal_strlit("5");
        reveal_strlit("6");
        reveal_strlit("7");
        reveal_strlit("8");
        reveal_strlit("9");
    }
    match d {
        0 => "0",
        1 => "1",
        2 => "2",
        3 => "3",
        4 => "4",
        5 => "5",
        6 => "6",
        7 => "7",
        8 => "8",
        _ => "9",
    }
}

/// Decimal rendering of an unsigned 64-bit number.
pub fn u64_to_dec(n: u64) -> (r: String)
    ensures
        r@ == dec_rep(n as nat),
    decreases n,
{
    if n < 10 {
        digit_str(n).to_owned()
    } else {
        proof {
            lemma_fundamental_div_mod(n as int, 10);
            lemma_mod_division_less_than_divisor(n as int, 10);
        }
        let mut s = u64_to_dec(n / 10);
        s.append(digit_str(n % 10));
        s
    }
}

/// Decimal rendering of a signed 64-bit number, matching `i64`'s `Display`.
pub fn i64_to_dec(n: i64) -> (r: String)
    ensures
        r@ == int_rep(n as int),
{
    if n >= 0 {
        u64_to_dec(n as u64)
    } else {
        // -(n + 1) fits in i64 even for i64::MIN; adding the 1 back as u64
        // gives the magnitude without overflow.
        let m: u64 = (-(n + 1)) as u64 + 1;
        proof {
            assert(m == -(n as int));
        }
        let mut s = "-".to_owned();
        proof {
            reveal_strlit("-");
            assert("-"@ =~= seq!['-']);
        }
        s.append(u64_to_dec(m).as_str());
        s
    }
}

/// Parse a decimal `i64` exactly as `str::parse::<i64>` does: optional
/// sign, then digits; `None` on empty digits, stray characters or overflow.
pub fn parse_i64(s: &str) -> (r: Option<i64>)
    ensures
        r == parse_i64_spec(s@),
{
    let n = s.unicode_len();
    if n == 0 {
        return None;
    }
    let first = s.get_char(0);
    let neg = first == '-';
    let start: usize = if first == '-' || first == '+' {
        1
    } else {
        0
    };
    let ghost ds = sign_digits(s@);
    proof {
        assert(forall|j: int| 0 <= j < ds.len() ==> ds[j] == s@[j + start]);
    }
    if start == n {
        return None;
    }
    // Accumulate the magnitude; bail out as soon as it can no longer fit,
    // which is sound because appending digits never shrinks the value.
    let mut m: u64 = 0;
    let mut i: usize = start;
    while i < n
        invariant
            n == s@.len(),
            start <= i <= n,
            start <= 1,
            ds == sign_digits(s@),
            neg == sign_neg(s@),
            ds.len() == n - start,
            forall|j: int| 0 <= j < ds.len() ==> ds[j] == s@[j + start],
            all_digits(ds.take(i - start)),
            m == digits_val(ds.take(i - start)),
            m <= 9223372036854775809u64,
            i > start ==> m <= 9223372036854775808u64 || !all_digits(ds) || digits_val(ds)
                > i64::MAX && -digits_val(ds) < i64::MIN,
        decreases n - i,
    {
        let c = s.get_char(i);
        if !(c >= '0' && c <= '9') {
            proof {
                assert(ds[i - start] == c && !is_digit(c));
                assert(!all_digits(ds));
            }
            return None;
        }
        let d: u64 = (c as u32 as u64) - 48;
        proof {
            assert(d == digit_val(c)) by {
                assert('0' as int == 48);
            }
            assert(ds.take(i + 1 - start).drop_last() =~= ds.take(i - start));
            assert(ds.take(i + 1 - start).last() == ds[i - start]);
        }
        if m > 922337203685477580 {
            // Even one more digit pushes the value past every i64, and
            // later digits only increase it further.
            proof {
                let k = i + 1 - start;
                assert(digits_val(ds.take(k)) == m * 10 + d);
                if all_digits(ds) {
                    lemma_digits_val_prefix_le(ds, k);
                    assert(digits_val(ds) >= m * 10 + d);
                    assert(digits_val(ds) > i64::MAX);
                    assert(-digits_val(ds) < i64::MIN);
                    assert(parse_i64_spec(s@) is None);
                } else {
                    assert(parse_i64_spec(s@) is None);
                }
            }
            return None;
        }
        m = m * 10 + d;
        i += 1;
        proof {
            if m > 9223372036854775808 && all_digits(ds) {
                lemma_digits_val_prefix_le(ds, i - start);
            }
        }
    }
    proof {
        assert(ds.take(n - start) =~= ds);
    }
    if neg {
        if m > 9223372036854775808 {
            return None;
        }
        if m == 9223372036854775808 {
            Some(i64::MIN)
        } else {
            Some(-(m as i64))
        }
    } else {
        if m > 9223372036854775807 {
            return None;
        }
        Some(m as i64)
    }
}

/// Parse a bool exactly as `str::parse::<bool>` does.
pub fn parse_bool(s: &str) -> (r: Option<bool>)
    ensures
        r == parse_bool_spec(s@),
{
    if crate::text::str_eq(s, "true") {
        Some(true)
    } else if crate::text::str_eq(s, "false") {
        Some(false)
    } else {
        None
    }
}

/// Render a bool as `Display` does.
pub fn bool_to_str(b: bool) -> (r: &'static str)
    ensures
        r@ == bool_rep(b),
{
    if b {
        "true"
    } else {
        "false"
    }
}

} // verus!
