//! Decimal text of integers: formatting as `Display` writes it and parsing as
//! `FromStr` reads it.
use vstd::prelude::*;
use crate::text::string_of;

verus! {

/// The ASCII digit of `d`, for `0 <= d < 10`.
pub open spec fn digit_char(d: nat) -> char {
    ((d + 48) as u32) as char
}

/// The value of an ASCII digit.
pub open spec fn digit_value(c: char) -> int {
    (c as u32) - 48
}

/// Whether `c` is an ASCII digit.
pub open spec fn is_digit(c: char) -> bool {
    48 <= (c as u32) && (c as u32) <= 57
}

/// Whether `s` is made of ASCII digits only.
pub open spec fn all_digits(s: Seq<char>) -> bool {
    forall|i: int| 0 <= i < s.len() ==> is_digit(#[trigger] s[i])
}

/// The value of a run of ASCII digits, most significant first.
pub open spec fn digits_value(s: Seq<char>) -> nat
    decreases s.len(),
{
    if s.len() == 0 {
        0
    } else {
        (digits_value(s.drop_last()) * 10 + digit_value(s.last())) as nat
    }
}

/// The decimal digits of `n`, without leading zeros (`"0"` for zero).
pub open spec fn decimal(n: nat) -> Seq<char>
    decreases n,
{
    if n < 10 {
        seq![digit_char(n)]
    } else {
        decimal(n / 10).push(digit_char(n % 10))
    }
}

/// The decimal text of a signed integer: a minus sign before a negative one.
pub open spec fn signed_decimal(n: int) -> Seq<char> {
    if n < 0 {
        seq!['-'] + decimal((-n) as nat)
    } else {
        decimal(n as nat)
    }
}

/// What `FromStr` of an unsigned integer type reads from `s`, before the
/// check of its range: an optional `+`, then one digit or more.
pub open spec fn unsigned_text(s: Seq<char>) -> Option<nat> {
    let body = if s.len() > 0 && s[0] == '+' {
        s.drop_first()
    } else {
        s
    };
    if body.len() > 0 && all_digits(body) {
        Some(digits_value(body))
    } else {
        None
    }
}

/// What `FromStr` of a signed integer type reads from `s`, before the check
/// of its range: an optional `+` or `-`, then one digit or more.
pub open spec fn signed_text(s: Seq<char>) -> Option<int> {
    if s.len() > 0 && s[0] == '-' {
        let body = s.drop_first();
        if body.len() > 0 && all_digits(body) {
            Some(-digits_value(body))
        } else {
            None
        }
    } else {
        match unsigned_text(s) {
            Some(v) => Some(v as int),
            None => None,
        }
    }
}

proof fn lemma_digits_prefix_le(s: Seq<char>, i: int)
    requires
        0 <= i <= s.len(),
        all_digits(s),
    ensures
        digits_value(s.subrange(0, i)) <= digits_value(s),
    decreases s.len() - i,
{
    if i < s.len() {
        lemma_digits_prefix_le(s, i + 1);
        let p = s.subrange(0, i + 1);
        assert(p.drop_last() =~= s.subrange(0, i));
        assert(is_digit(s[i]));
    } else {
        assert(s.subrange(0, i) =~= s);
    }
}

/// The digits of `s` as a number, when they are all digits, there is one at
/// least, and the number does not exceed `limit`.
pub fn parse_digits(s: &[char], limit: u64) -> (r: Option<u64>)
    ensures
        match r {
            Some(v) => s@.len() > 0 && all_digits(s@) && v == digits_value(s@) && v <= limit,
            None => !(s@.len() > 0 && all_digits(s@) && digits_value(s@) <= limit),
        },
{
    let n = s.len();
    if n == 0 {
        return None;
    }
    let mut acc: u64 = 0;
    let mut i: usize = 0;
    while i < n
        invariant
            n == s@.len(),
            i <= n,
            all_digits(s@.subrange(0, i as int)),
            acc == digits_value(s@.subrange(0, i as int)),
            acc <= limit,
        decreases n - i,
    {
        let c = s[i];
        let u = c as u32;
        proof {
            let p = s@.subrange(0, i + 1);
            assert(p.drop_last() =~= s@.subrange(0, i as int));
            assert(p.last() == c);
        }
        if u < 48 || u > 57 {
            proof {
                assert(!is_digit(s@[i as int]));
            }
            return None;
        }
        let d = (u - 48) as u64;
        if d > limit || acc > (limit - d) / 10 {
            proof {
                assert(digits_value(s@.subrange(0, i + 1)) == acc * 10 + d);
                if d <= limit {
                    assert(acc * 10 + d > limit) by (nonlinear_arith)
                        requires
                            acc > (limit - d) / 10,
                            limit >= d,
                    ;
                }
                if all_digits(s@) {
                    lemma_digits_prefix_le(s@, i + 1);
                }
            }
            return None;
        }
        proof {
            assert(acc * 10 + d <= limit) by (nonlinear_arith)
                requires
                    acc <= (limit - d) / 10,
                    limit >= d,
            ;
        }
        acc = acc * 10 + d;
        i = i + 1;
        proof {
            assert(all_digits(s@.subrange(0, i as int)));
        }
    }
    proof {
        assert(s@.subrange(0, n as int) =~= s@);
    }
    Some(acc)
}

/// `u16::from_str`.
pub fn parse_u16(s: &[char]) -> (r: Option<u16>)
    ensures
        match r {
            Some(v) => unsigned_text(s@) == Some(v as nat),
            None => !(unsigned_text(s@) matches Some(v) && v <= u16::MAX),
        },
{
    match parse_unsigned(s, 65535) {
        Some(v) => Some(v as u16),
        None => None,
    }
}

/// `u32::from_str`.
pub fn parse_u32(s: &[char]) -> (r: Option<u32>)
    ensures
        match r {
            Some(v) => unsigned_text(s@) == Some(v as nat),
            None => !(unsigned_text(s@) matches Some(v) && v <= u32::MAX),
        },
{
    match parse_unsigned(s, 4294967295) {
        Some(v) => Some(v as u32),
        None => None,
    }
}

fn parse_unsigned(s: &[char], limit: u64) -> (r: Option<u64>)
    ensures
        match r {
            Some(v) => unsigned_text(s@) == Some(v as nat) && v <= limit,
            None => !(unsigned_text(s@) matches Some(v) && v <= limit),
        },
{
    let n = s.len();
    if n > 0 && s[0] == '+' {
        let rest = crate::text::slice_chars(s, 1, n);
        proof {
            assert(rest@ =~= s@.drop_first());
        }
        parse_digits(rest.as_slice(), limit)
    } else {
        parse_digits(s, limit)
    }
}

/// `i32::from_str`.
pub fn parse_i32(s: &[char]) -> (r: Option<i32>)
    ensures
        match r {
            Some(v) => signed_text(s@) == Some(v as int),
            None => !(signed_text(s@) matches Some(v) && i32::MIN <= v <= i32::MAX),
        },
{
    let n = s.len();
    if n > 0 && s[0] == '-' {
        let rest = crate::text::slice_chars(s, 1, n);
        proof {
            assert(rest@ =~= s@.drop_first());
        }
        match parse_digits(rest.as_slice(), 2147483648) {
            Some(v) => Some((0 - (v as i64)) as i32),
            None => None,
        }
    } else {
        match parse_unsigned(s, 2147483647) {
            Some(v) => Some(v as i32),
            None => None,
        }
    }
}

fn write_decimal(n: u128, out: &mut Vec<char>)
    ensures
        final(out)@ == old(out)@ + decimal(n as nat),
    decreases n,
{
    if n >= 10 {
        write_decimal(n / 10, out);
    }
    let d = (n % 10) as u32;
    let c = char_of_digit(d);
    out.push(c);
    proof {
        if n < 10 {
            assert(decimal(n as nat) == seq![digit_char(n as nat)]);
        }
    }
}

fn char_of_digit(d: u32) -> (c: char)
    requires
        d < 10,
    ensures
        c == digit_char(d as nat),
{
    let cs: [char; 10] = ['0', '1', '2', '3', '4', '5', '6', '7', '8', '9'];
    let c = cs[d as usize];
    proof {
        assert(cs@[d as int] == digit_char(d as nat)) by {
            assert(('0' as u32) == 48);
        }
    }
    c
}

/// The decimal text of an unsigned integer (`Display`).
pub fn u128_to_string(n: u128) -> (r: String)
    ensures
        r@ == decimal(n as nat),
{
    let mut v: Vec<char> = Vec::new();
    write_decimal(n, &mut v);
    proof {
        assert(v@ =~= decimal(n as nat));
    }
    string_of(&v)
}

/// The decimal text of a signed integer (`Display`).
pub fn i64_to_string(n: i64) -> (r: String)
    ensures
        r@ == signed_decimal(n as int),
{
    let mut v: Vec<char> = Vec::new();
    if n < 0 {
        v.push('-');
        let m: u128 = (0 - (n as i128)) as u128;
        write_decimal(m, &mut v);
    } else {
        write_decimal(n as u128, &mut v);
    }
    proof {
        assert(v@ =~= signed_decimal(n as int));
    }
    string_of(&v)
}


proof fn lemma_decimal_digits(n: nat)
    ensures
        decimal(n).len() > 0,
        all_digits(decimal(n)),
        digits_value(decimal(n)) == n,
    decreases n,
{
    if n < 10 {
        let s = decimal(n);
        assert(s.drop_last() =~= Seq::<char>::empty());
        assert(digits_value(s.drop_last()) == 0);
    } else {
        lemma_decimal_digits(n / 10);
        let s = decimal(n);
        assert(s.drop_last() =~= decimal(n / 10));
        assert(s.last() == digit_char(n % 10));
        assert forall|i: int| 0 <= i < s.len() implies is_digit(#[trigger] s[i]) by {
            if i < s.len() - 1 {
                assert(s[i] == decimal(n / 10)[i]);
            }
        }
    }
}

/// What `Display` writes of an integer, `FromStr` reads back.
pub proof fn lemma_parse_display(n: int)
    ensures
        n >= 0 ==> unsigned_text(decimal(n as nat)) == Some(n as nat),
        signed_text(signed_decimal(n)) == Some(n),
{
    if n >= 0 {
        lemma_decimal_digits(n as nat);
        let s = decimal(n as nat);
        assert(is_digit(s[0]));
    } else {
        lemma_decimal_digits((-n) as nat);
        let s = signed_decimal(n);
        let d = decimal((-n) as nat);
        assert(s.drop_first() =~= d);
        assert(s[0] == '-');
    }
}

} // verus!
