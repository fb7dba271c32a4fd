//! Textual parsing and formatting of scalar values.
//!
//! Path captures arrive as strings; the decoder turns them into integers,
//! booleans and characters under the standard textual rules: an optional
//! sign, decimal digits, exact `true`/`false` words, a single character.
//! Formatting of unsigned integers feeds the decoder's error messages.

use vstd::prelude::*;

verus! {

/// Whether `c` is a decimal digit.
pub open spec fn is_digit(c: char) -> bool {
    48 <= c as int <= 57
}

/// The numeric value of a digit character.
pub open spec fn digit_of(c: char) -> int {
    c as int - 48
}

/// Whether `s` is one or more decimal digits and nothing else.
pub open spec fn is_digit_seq(s: Seq<char>) -> bool {
    s.len() > 0 && forall|i: int| 0 <= i < s.len() ==> is_digit(s[i])
}

/// The value of a digit string, most significant digit first.
pub open spec fn digits_val(s: Seq<char>) -> int
    decreases s.len(),
{
    if s.len() == 0 {
        0
    } else {
        digits_val(s.drop_last()) * 10 + digit_of(s.last())
    }
}

/// The value of a digit string never shrinks when digits are appended.
proof fn lemma_digits_val_prefix_le(s: Seq<char>, k: int)
    requires
        0 <= k <= s.len(),
        forall|i: int| 0 <= i < s.len() ==> is_digit(s[i]),
    ensures
        0 <= digits_val(s.take(k)),
        digits_val(s.take(k)) <= digits_val(s),
    decreases s.len() - k,
{
    if k == s.len() {
        assert(s.take(k) =~= s);
        lemma_digits_val_nonneg(s);
    } else {
        lemma_digits_val_prefix_le(s, k + 1);
        assert(s.take(k + 1).drop_last() =~= s.take(k));
        assert(digits_val(s.take(k + 1)) == digits_val(s.take(k)) * 10 + digit_of(s[k]));
        lemma_digits_val_nonneg(s.take(k));
    }
}

/// A digit string's value is never negative.
proof fn lemma_digits_val_nonneg(s: Seq<char>)
    requires
        forall|i: int| 0 <= i < s.len() ==> is_digit(s[i]),
    ensures
        0 <= digits_val(s),
    decreases s.len(),
{
    if s.len() > 0 {
        lemma_digits_val_nonneg(s.drop_last());
    }
}

/// What parsing `s` from position `from` as a run of digits yields: the
/// value, if the rest is all digits and fits in a `u64`.
pub open spec fn spec_digits_to_u64(s: Seq<char>) -> Option<u64> {
    if is_digit_seq(s) && digits_val(s) <= u64::MAX {
        Some(digits_val(s) as u64)
    } else {
        None
    }
}

/// Reads the digits of `s` from position `from` to the end.
fn digits_to_u64(s: &str, from: usize) -> (r: Option<u64>)
    requires
        from <= s@.len(),
    ensures
        r == spec_digits_to_u64(s@.skip(from as int)),
{
    let ghost t = s@.skip(from as int);
    let n: usize = s.unicode_len();
    if from == n {
        proof {
            assert(!is_digit_seq(t));
        }
        return None;
    }
    let mut v: u64 = 0;
    let mut i: usize = from;
    while i < n
        invariant
            from <= i <= n,
            n == s@.len(),
            t == s@.skip(from as int),
            forall|j: int| 0 <= j < i - from ==> is_digit(t[j]),
            v == digits_val(t.take(i - from)),
        decreases n - i,
    {
        let c = s.get_char(i);
        let u = c as u32;
        if u < 48 || u > 57 {
            proof {
                assert(t[i - from] == s@[i as int]);
                assert(!is_digit(t[i - from]));
            }
            return None;
        }
        let d: u64 = (u - 48) as u64;
        proof {
            assert(t.take(i + 1 - from).drop_last() =~= t.take(i - from));
            assert(t.take(i + 1 - from).last() == s@[i as int]);
            assert(digits_val(t.take(i + 1 - from)) == v * 10 + d);
        }
        let step = match v.checked_mul(10) {
            Some(w) => w.checked_add(d),
            None => None,
        };
        match step {
            Some(w) => {
                v = w;
            },
            None => {
                proof {
                    assert(digits_val(t.take(i + 1 - from)) > u64::MAX);
                    if is_digit_seq(t) {
                        lemma_digits_val_prefix_le(t, i + 1 - from);
                    }
                }
                return None;
            },
        }
        i = i + 1;
    }
    proof {
        assert(t.take(n - from) =~= t);
        assert(is_digit_seq(t));
    }
    Some(v)
}

/// What parsing `s` as a `u64` yields under the standard rules: an optional
/// leading `+`, then decimal digits, value within range.
pub open spec fn spec_parse_u64(s: Seq<char>) -> Option<u64> {
    if s.len() > 0 && s[0] == '+' {
        spec_digits_to_u64(s.skip(1))
    } else {
        spec_digits_to_u64(s)
    }
}

/// Parses `s` as a `u64`: optional leading `+`, then decimal digits.
pub fn parse_u64(s: &str) -> (r: Option<u64>)
    ensures
        r == spec_parse_u64(s@),
{
    let n: usize = s.unicode_len();
    if n > 0 && s.get_char(0) == '+' {
        digits_to_u64(s, 1)
    } else {
        proof {
            assert(s@.skip(0) =~= s@);
        }
        digits_to_u64(s, 0)
    }
}

/// What parsing `s` as an `i64` yields under the standard rules: an optional
/// sign, then decimal digits, value within range.
pub open spec fn spec_parse_i64(s: Seq<char>) -> Option<i64> {
    if s.len() > 0 && s[0] == '-' {
        let rest = s.skip(1);
        if is_digit_seq(rest) && digits_val(rest) <= 0x8000_0000_0000_0000 {
            Some((-digits_val(rest)) as i64)
        } else {
            None
        }
    } else {
        let rest = if s.len() > 0 && s[0] == '+' {
            s.skip(1)
        } else {
            s
        };
        if is_digit_seq(rest) && digits_val(rest) <= i64::MAX {
            Some(digits_val(rest) as i64)
        } else {
            None
        }
    }
}

/// Parses `s` as an `i64`: optional sign, then decimal digits.
pub fn parse_i64(s: &str) -> (r: Option<i64>)
    ensures
        r == spec_parse_i64(s@),
{
    let n: usize = s.unicode_len();
    if n > 0 && s.get_char(0) == '-' {
        match digits_to_u64(s, 1) {
            Some(m) => {
                proof {
                    lemma_digits_val_nonneg(s@.skip(1));
                }
                if m > 0x8000_0000_0000_0000 {
                    None
                } else if m == 0x8000_0000_0000_0000 {
                    Some(i64::MIN)
                } else {
                    Some(-(m as i64))
                }
            },
            None => {
                proof {
                    if is_digit_seq(s@.skip(1)) && digits_val(s@.skip(1))
                        <= 0x8000_0000_0000_0000 {
                        lemma_digits_val_nonneg(s@.skip(1));
                    }
                }
                None
            },
        }
    } else {
        let from: usize = if n > 0 && s.get_char(0) == '+' {
            1
        } else {
            0
        };
        proof {
            if from == 0 {
                assert(s@.skip(0) =~= s@);
            }
        }
        match digits_to_u64(s, from) {
            Some(m) => {
                proof {
                    lemma_digits_val_nonneg(s@.skip(from as int));
                }
                if m <= i64::MAX as u64 {
                    Some(m as i64)
                } else {
                    None
                }
            },
            None => {
                proof {
                    let rest = if s@.len() > 0 && s@[0] == '+' {
                        s@.skip(1)
                    } else {
                        s@
                    };
                    if is_digit_seq(rest) && digits_val(rest) <= i64::MAX {
                        lemma_digits_val_nonneg(rest);
                    }
                }
                None
            },
        }
    }
}

/// Whether the characters of `a`, starting at `from`, equal `b` exactly.
pub fn str_eq(a: &str, b: &str) -> (r: bool)
    ensures
        r == (a@ == b@),
{
    let na: usize = a.unicode_len();
    let nb: usize = b.unicode_len();
    if na != nb {
        return false;
    }
    let mut i: usize = 0;
    while i < na
        invariant
            i <= na,
            na == a@.len(),
            na == b@.len(),
            forall|j: int| 0 <= j < i ==> a@[j] == b@[j],
        decreases na - i,
    {
        if a.get_char(i) != b.get_char(i) {
            return false;
        }
        i = i + 1;
    }
    proof {
        assert(a@ =~= b@);
    }
    true
}

/// What parsing `s` as a `bool` yields: exactly the words `true` and `false`.
pub open spec fn spec_parse_bool(s: Seq<char>) -> Option<bool> {
    if s == "true"@ {
        Some(true)
    } else if s == "false"@ {
        Some(false)
    } else {
        None
    }
}

/// Parses `s` as a `bool`.
pub fn parse_bool(s: &str) -> (r: Option<bool>)
    ensures
        r == spec_parse_bool(s@),
{
    if str_eq(s, "true") {
        Some(true)
    } else if str_eq(s, "false") {
        Some(false)
    } else {
        None
    }
}

/// What parsing `s` as a `char` yields: the character, when there is exactly
/// one.
pub open spec fn spec_parse_char(s: Seq<char>) -> Option<char> {
    if s.len() == 1 {
        Some(s[0])
    } else {
        None
    }
}

/// Parses `s` as a `char`.
pub fn parse_char(s: &str) -> (r: Option<char>)
    ensures
        r == spec_parse_char(s@),
{
    if s.unicode_len() == 1 {
        Some(s.get_char(0))
    } else {
        None
    }
}

/// The digit character of a value below ten.
pub open spec fn digit_char(d: int) -> char {
    if d == 0 {
        '0'
    } else if d == 1 {
        '1'
    } else if d == 2 {
        '2'
    } else if d == 3 {
        '3'
    } else if d == 4 {
        '4'
    } else if d == 5 {
        '5'
    } else if d == 6 {
        '6'
    } else if d == 7 {
        '7'
    } else if d == 8 {
        '8'
    } else {
        '9'
    }
}

/// The decimal rendering of `n`, most significant digit first.
pub open spec fn spec_u64_string(n: int) -> Seq<char>
    decreases n,
{
    if n < 10 {
        seq![digit_char(n)]
    } else {
        spec_u64_string(n / 10).push(digit_char(n % 10))
    }
}

/// The one-character string of a digit.
fn digit_str(d: u64) -> (s: &'static str)
    requires
        d < 10,
    ensures
        s@ == seq![digit_char(d as int)],
{
    proof {
        reveal_strlit("0");
        reveal_strlit("1");
        reveal_strlit("2");
        reveal_strlit("3");
        reveal_strlit("4");
        reveal_strlit("5");
        reveal_strlit("6");
        reveal_strlit("7");
        reveal_strlit("8");
        reveal_strlit("9");
    }
    let s = match d {
        0 => "0",
        1 => "1",
        2 => "2",
        3 => "3",
        4 => "4",
        5 => "5",
        6 => "6",
        7 => "7",
        8 => "8",
        _ => "9",
    };
    proof {
        assert(s@ =~= seq![digit_char(d as int)]);
    }
    s
}

/// Renders `n` in decimal.
pub fn format_u64(n: u64) -> (r: String)
    ensures
        r@ == spec_u64_string(n as int),
    decreases n,
{
    if n < 10 {
        String::from_str(digit_str(n))
    } else {
        proof {
            assert(n / 10 < n) by (nonlinear_arith)
                requires
                    n >= 10,
            ;
        }
        let mut r = format_u64(n / 10);
        r.append(digit_str(n % 10));
        proof {
            assert(r@ =~= spec_u64_string(n as int));
        }
        r
    }
}

} // verus!
