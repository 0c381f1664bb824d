//! Decimal rendering of `u64` and decimal parsing of `i32`, as `Display` and
//! `str::parse` do them.

use vstd::prelude::*;

verus! {

/// The ASCII digit for `d` (`d < 10`).
pub open spec fn digit_char(d: nat) -> char {
    (48 + d) as char
}

/// The decimal rendering of `n`, without sign or leading zeros.
pub open spec fn dec(n: nat) -> Seq<char>
    decreases n,
{
    if n < 10 {
        seq![digit_char(n)]
    } else {
        dec(n / 10).push(digit_char(n % 10))
    }
}

/// `c` is one of `0` to `9`.
pub open spec fn is_digit(c: char) -> bool {
    48 <= (c as int) <= 57
}

/// The value of the digit `c`.
pub open spec fn digit_value(c: char) -> int {
    (c as int) - 48
}

/// Every character of `s` is a digit.
pub open spec fn all_digits(s: Seq<char>) -> bool {
    forall|i: int| 0 <= i < s.len() ==> is_digit(#[trigger] s[i])
}

/// The number that the digits `s` spell in base ten.
pub open spec fn digits_value(s: Seq<char>) -> int
    decreases s.len(),
{
    if s.len() == 0 {
        0
    } else {
        10 * digits_value(s.drop_last()) + digit_value(s.last())
    }
}

/// The digits after an optional leading sign.
pub open spec fn unsigned_part(s: Seq<char>) -> Seq<char> {
    if s.len() > 0 && (s[0] == '-' || s[0] == '+') {
        s.drop_first()
    } else {
        s
    }
}

/// What `s.parse::<i32>()` gives: an optional `+` or `-`, then at least one
/// digit and nothing else, with the value in the range of `i32`.
pub open spec fn parse_i32_spec(s: Seq<char>) -> Option<i32> {
    let body = unsigned_part(s);
    let v = if s.len() > 0 && s[0] == '-' {
        -digits_value(body)
    } else {
        digits_value(body)
    };
    if body.len() > 0 && all_digits(body) && i32::MIN <= v <= i32::MAX {
        Some(v as i32)
    } else {
        None
    }
}

/// The value of digits is never negative, and it never shrinks as digits
/// are added at the end.
pub proof fn lemma_digits_value_grows(s: Seq<char>, k: int)
    requires
        all_digits(s),
        0 <= k <= s.len(),
    ensures
        0 <= digits_value(s.take(k)) <= digits_value(s),
    decreases s.len(),
{
    if k < s.len() {
        let t = s.drop_last();
        assert(t.take(k) =~= s.take(k));
        assert(is_digit(s[s.len() - 1]));
        lemma_digits_value_grows(t, k);
        lemma_digits_value_grows(t, t.len() as int);
        assert(t.take(t.len() as int) =~= t);
    } else {
        assert(s.take(k) =~= s);
        if s.len() > 0 {
            let t = s.drop_last();
            assert(is_digit(s[s.len() - 1]));
            lemma_digits_value_grows(t, t.len() as int);
            assert(t.take(t.len() as int) =~= t);
        }
    }
}

/// The decimal rendering spells `n` back, in digits only.
pub proof fn lemma_dec(n: nat)
    ensures
        dec(n).len() > 0,
        all_digits(dec(n)),
        digits_value(dec(n)) == n,
    decreases n,
{
    let s = dec(n);
    if n < 10 {
        assert(s.drop_last() =~= Seq::<char>::empty());
        assert(digits_value(s.drop_last()) == 0);
        assert(digit_value(s.last()) == n);
    } else {
        lemma_dec(n / 10);
        assert(s.drop_last() =~= dec(n / 10));
        assert(s.last() == digit_char(n % 10));
        assert(digit_value(s.last()) == n % 10);
        assert(n == 10 * (n / 10) + n % 10);
        assert forall|i: int| 0 <= i < s.len() implies is_digit(#[trigger] s[i]) by {
            if i < s.len() - 1 {
                assert(s[i] == dec(n / 10)[i]);
            }
        }
    }
}

/// Parsing the decimal rendering of `n` gives `n` back when `n` fits in an
/// `i32`, and fails when it does not.
pub proof fn lemma_parse_dec(n: nat)
    ensures
        n <= i32::MAX ==> parse_i32_spec(dec(n)) == Some(n as i32),
        n > i32::MAX ==> parse_i32_spec(dec(n)) is None,
{
    lemma_dec(n);
    let s = dec(n);
    assert(is_digit(s[0]));
    assert(unsigned_part(s) == s);
}

/// One digit as a one-character string.
fn digit_str(d: u64) -> (s: &'static str)
    requires
        d < 10,
    ensures
        s@ == seq![digit_char(d as nat)],
{
    let all = "0123456789";
    proof {
        reveal_strlit("0123456789");
    }
    let s = all.substring_char(d as usize, d as usize + 1);
    assert(s@ =~= seq![digit_char(d as nat)]);
    s
}

/// The decimal rendering of `n`, as `n.to_string()` gives it.
pub fn decimal(n: u64) -> (s: String)
    ensures
        s@ == dec(n as nat),
    decreases n,
{
    if n < 10 {
        String::from_str(digit_str(n))
    } else {
        let mut s = decimal(n / 10);
        s.append(digit_str(n % 10));
        s
    }
}

/// `v[lo..hi]` parsed as `str::parse::<i32>` would.
pub fn parse_i32(v: &Vec<char>, lo: usize, hi: usize) -> (r: Option<i32>)
    requires
        lo <= hi <= v@.len(),
    ensures
        r == parse_i32_spec(v@.subrange(lo as int, hi as int)),
{
    let ghost s = v@.subrange(lo as int, hi as int);
    let mut start = lo;
    let mut neg = false;
    if lo < hi && (v[lo] == '-' || v[lo] == '+') {
        neg = v[lo] == '-';
        start = lo + 1;
    }
    let ghost body = v@.subrange(start as int, hi as int);
    assert(body =~= unsigned_part(s));
    if start == hi {
        return None;
    }
    let mut acc: i64 = 0;
    let mut i = start;
    while i < hi
        invariant
            lo <= start <= i <= hi <= v@.len(),
            body == v@.subrange(start as int, hi as int),
            s == v@.subrange(lo as int, hi as int),
            body == unsigned_part(s),
            neg == (s.len() > 0 && s[0] == '-'),
            all_digits(body.take(i - start)),
            acc == digits_value(body.take(i - start)),
            0 <= acc <= 2147483648,
        decreases hi - i,
    {
        let c = v[i];
        assert(body[i - start] == c);
        if c < '0' || c > '9' {
            assert(!is_digit(body[i - start]));
            return None;
        }
        let ghost k = i - start;
        let ghost next = body.take(k + 1);
        assert(is_digit(c));
        assert(next.drop_last() =~= body.take(k));
        assert(next.last() == c);
        assert(all_digits(next)) by {
            assert forall|j: int| 0 <= j < next.len() implies is_digit(#[trigger] next[j]) by {
                if j < k {
                    assert(next[j] == body.take(k)[j]);
                } else {
                    assert(next[j] == c);
                }
            }
        }
        let code = c as u32;
        assert(code as int == c as int);
        acc = acc * 10 + (code as i64 - 48);
        i = i + 1;
        if acc > 2147483648 {
            proof {
                if all_digits(body) {
                    lemma_digits_value_grows(body, i - start);
                }
            }
            return None;
        }
    }
    assert(body.take(i - start) =~= body);
    if neg {
        Some((0 - acc) as i32)
    } else if acc > 2147483647 {
        None
    } else {
        Some(acc as i32)
    }
}

} // verus!
