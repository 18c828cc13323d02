//! Decimal numerals: printing an unsigned integer as its digit string and
//! reading one back.
//!
//! The queue publishes its cursor as a decimal string on the session event
//! bus, and the ingestion pipeline reads the size probe's output as a
//! decimal byte count, so both directions are needed and both are verified
//! against the same abstract numeral [`dec_seq`] / [`dec_value`].

use vstd::prelude::*;

verus! {

/// The digit character for a value in `0 ..= 9`.
pub open spec fn dec_digit(d: int) -> char {
    if d == 0 {
        '0'
    } else if d == 1 {
        '1'
    } else if d == 2 {
        '2'
    } else if d == 3 {
        '3'
    } else if d == 4 {
        '4'
    } else if d == 5 {
        '5'
    } else if d == 6 {
        '6'
    } else if d == 7 {
        '7'
    } else if d == 8 {
        '8'
    } else {
        '9'
    }
}

/// The decimal digit string of `n`, most significant digit first, with no
/// leading zeros (a single `'0'` for zero).
pub open spec fn dec_seq(n: nat) -> Seq<char>
    decreases n,
{
    if n < 10 {
        seq![dec_digit(n as int)]
    } else {
        dec_seq(n / 10).push(dec_digit((n % 10) as int))
    }
}

/// Numeric value of a digit character (meaningful only on digits).
pub open spec fn digit_val(c: char) -> int {
    (c as u32) - 48
}

/// Whether `c` is an ASCII decimal digit.
pub open spec fn is_dec_digit(c: char) -> bool {
    48 <= (c as u32) <= 57
}

/// Whether every character of `s` is a decimal digit.
pub open spec fn all_dec_digits(s: Seq<char>) -> bool {
    forall|i: int| 0 <= i < s.len() ==> is_dec_digit(#[trigger] s[i])
}

/// The value of a digit string, most significant digit first.
pub open spec fn dec_value(s: Seq<char>) -> int
    decreases s.len(),
{
    if s.len() == 0 {
        0
    } else {
        dec_value(s.drop_last()) * 10 + digit_val(s.last())
    }
}

/// The digit portion that `str::parse::<u64>` would read: the whole
/// string, or what follows a single leading `'+'`.
pub open spec fn dec_body(s: Seq<char>) -> Seq<char> {
    if s.len() > 0 && s[0] == '+' {
        s.subrange(1, s.len() as int)
    } else {
        s
    }
}

/// Whether `s` is a well-formed decimal numeral (after the optional
/// leading `'+'`): non-empty and all digits.
pub open spec fn is_dec_numeral(s: Seq<char>) -> bool {
    dec_body(s).len() > 0 && all_dec_digits(dec_body(s))
}

fn digit_str(d: u64) -> (r: &'static str)
    requires
        d < 10,
    ensures
        r@ == seq![dec_digit(d as int)],
{
    let r: &'static str = match d {
        0 => "0",
        1 => "1",
        2 => "2",
        3 => "3",
        4 => "4",
        5 => "5",
        6 => "6",
        7 => "7",
        8 => "8",
        _ => "9",
    };
    proof {
        reveal_strlit("0");
        reveal_strlit("1");
        reveal_strlit("2");
        reveal_strlit("3");
        reveal_strlit("4");
        reveal_strlit("5");
        reveal_strlit("6");
        reveal_strlit("7");
        reveal_strlit("8");
        reveal_strlit("9");
        assert(r@ =~= seq![dec_digit(d as int)]);
    }
    r
}

/// Prints `n` in decimal.
pub fn u64_to_dec(n: u64) -> (s: String)
    ensures
        s@ == dec_seq(n as nat),
    decreases n,
{
    if n < 10 {
        String::from_str(digit_str(n))
    } else {
        let mut s = u64_to_dec(n / 10);
        s.append(digit_str(n % 10));
        proof {
            assert(s@ =~= dec_seq((n / 10) as nat).push(dec_digit((n % 10) as int)));
        }
        s
    }
}

/// Prints `n` in decimal (the cursor of a queue is a `usize`).
pub fn usize_to_dec(n: usize) -> (s: String)
    ensures
        s@ == dec_seq(n as nat),
{
    u64_to_dec(n as u64)
}

/// Reads a decimal numeral the way `str::parse::<u64>` does: an optional
/// leading `'+'`, then one or more digits, and the value must fit in a
/// `u64`.  Returns `None` on any other input.
pub fn parse_u64_dec(s: &str) -> (r: Option<u64>)
    ensures
        r is Some <==> is_dec_numeral(s@) && dec_value(dec_body(s@)) <= u64::MAX,
        r matches Some(v) ==> v == dec_value(dec_body(s@)),
{
    let len = s.unicode_len();
    let mut start: usize = 0;
    if len > 0 && s.get_char(0) == '+' {
        start = 1;
    }
    proof {
        assert(dec_body(s@) =~= s@.subrange(start as int, s@.len() as int));
    }
    if start >= len {
        return None;
    }
    let mut acc: u128 = 0;
    let mut i: usize = start;
    while i < len
        invariant
            start <= i <= len,
            len == s@.len(),
            start == 0 || start == 1,
            start == 1 <==> (s@.len() > 0 && s@[0] == '+'),
            acc <= u64::MAX,
            all_dec_digits(s@.subrange(start as int, i as int)),
            acc == dec_value(s@.subrange(start as int, i as int)),
        decreases len - i,
    {
        let c = s.get_char(i);
        let code = c as u32;
        if code < 48 || code > 57 {
            proof {
                assert(dec_body(s@) =~= s@.subrange(start as int, s@.len() as int));
                assert(!is_dec_digit(dec_body(s@)[i - start]));
            }
            return None;
        }
        let d: u128 = (code - 48) as u128;
        let next = acc * 10 + d;
        proof {
            let pre = s@.subrange(start as int, i as int);
            let ext = s@.subrange(start as int, i as int + 1);
            assert(ext.drop_last() =~= pre);
            assert(ext.last() == s@[i as int]);
        }
        if next > u64::MAX as u128 {
            proof {
                let body = dec_body(s@);
                assert(body =~= s@.subrange(start as int, s@.len() as int));
                if all_dec_digits(body) {
                    let k = i as int + 1 - start;
                    assert(body.subrange(0, k) =~= s@.subrange(start as int, i as int + 1));
                    lemma_dec_value_monotone(body, k);
                }
            }
            return None;
        }
        acc = next;
        i += 1;
    }
    proof {
        assert(s@.subrange(start as int, i as int) =~= dec_body(s@));
    }
    Some(acc as u64)
}

/// A digit string's value only grows as more digits follow: the value of
/// a prefix bounds the value of the whole from below.
proof fn lemma_dec_value_monotone(s: Seq<char>, k: int)
    requires
        0 <= k <= s.len(),
        all_dec_digits(s),
    ensures
        dec_value(s.subrange(0, k)) <= dec_value(s),
        dec_value(s) >= 0,
    decreases s.len() - k,
{
    lemma_dec_value_nonneg(s);
    if k < s.len() {
        lemma_dec_value_monotone(s, k + 1);
        let a = s.subrange(0, k);
        let b = s.subrange(0, k + 1);
        assert(b.drop_last() =~= a);
        lemma_dec_value_nonneg(a);
        assert(dec_value(b) == dec_value(a) * 10 + digit_val(s[k]));
        assert(dec_value(a) * 10 >= dec_value(a)) by (nonlinear_arith)
            requires dec_value(a) >= 0;
    } else {
        assert(s.subrange(0, k) =~= s);
    }
}

/// The value of a digit string is non-negative.
proof fn lemma_dec_value_nonneg(s: Seq<char>)
    requires
        all_dec_digits(s),
    ensures
        dec_value(s) >= 0,
    decreases s.len(),
{
    if s.len() > 0 {
        assert(all_dec_digits(s.drop_last())) by {
            assert(forall|i: int| 0 <= i < s.len() - 1 ==> s.drop_last()[i] == s[i]);
        }
        lemma_dec_value_nonneg(s.drop_last());
        assert(dec_value(s.drop_last()) * 10 >= 0) by (nonlinear_arith)
            requires dec_value(s.drop_last()) >= 0;
    }
}

/// The decimal digit string of a signed value: a leading `'-'` for
/// negative values.
pub open spec fn dec_int_seq(n: int) -> Seq<char> {
    if n >= 0 {
        dec_seq(n as nat)
    } else {
        seq!['-'] + dec_seq((-n) as nat)
    }
}

/// Prints a signed value in decimal (database user ids are signed).
pub fn i32_to_dec(n: i32) -> (s: String)
    ensures
        s@ == dec_int_seq(n as int),
{
    if n >= 0 {
        u64_to_dec(n as u64)
    } else {
        let mag = -(n as i64);
        let mut s = String::from_str("-");
        let digits = u64_to_dec(mag as u64);
        s.append(digits.as_str());
        proof {
            reveal_strlit("-");
            assert("-"@ =~= seq!['-']);
        }
        s
    }
}

} // verus!
