//! Decimal integer parsing with the semantics of Rust's `FromStr` for `i64` and `u64`.
use vstd::prelude::*;

verus! {

/// An ASCII decimal digit.
pub open spec fn is_digit(c: char) -> bool {
    48 <= (c as u32) && (c as u32) <= 57
}

/// Every character of `d` is an ASCII decimal digit.
pub open spec fn all_digits(d: Seq<char>) -> bool {
    forall|i: int| 0 <= i < d.len() ==> is_digit(#[trigger] d[i])
}

/// The number that the decimal digits `d` denote.
pub open spec fn digits_value(d: Seq<char>) -> int
    decreases d.len(),
{
    if d.len() == 0 {
        0
    } else {
        digits_value(d.drop_last()) * 10 + ((d.last() as u32) - 48)
    }
}

/// Rust's `i64::from_str`: an optional sign, then one or more decimal digits, in range.
pub open spec fn parse_i64_spec(s: Seq<char>) -> Option<int> {
    if s.len() == 0 {
        None
    } else {
        let neg = s[0] == '-';
        let d = if s[0] == '-' || s[0] == '+' {
            s.drop_first()
        } else {
            s
        };
        if d.len() == 0 || !all_digits(d) {
            None
        } else {
            let v = if neg {
                -digits_value(d)
            } else {
                digits_value(d)
            };
            if i64::MIN <= v <= i64::MAX {
                Some(v)
            } else {
                None
            }
        }
    }
}

/// Rust's `u64::from_str`: an optional `+`, then one or more decimal digits, in range.
pub open spec fn parse_u64_spec(s: Seq<char>) -> Option<int> {
    if s.len() == 0 {
        None
    } else {
        let d = if s[0] == '+' {
            s.drop_first()
        } else {
            s
        };
        if d.len() == 0 || !all_digits(d) {
            None
        } else {
            let v = digits_value(d);
            if v <= u64::MAX {
                Some(v)
            } else {
                None
            }
        }
    }
}

proof fn lemma_digits_value_monotone(d: Seq<char>, k: int)
    requires
        0 <= k <= d.len(),
        all_digits(d),
    ensures
        0 <= digits_value(d.subrange(0, k)) <= digits_value(d),
    decreases d.len() - k,
{
    if k < d.len() {
        lemma_digits_value_monotone(d.drop_last(), k);
        assert(d.drop_last().subrange(0, k) == d.subrange(0, k));
        assert(is_digit(d[d.len() - 1]));
        lemma_digits_value_monotone(d.drop_last(), d.len() - 1);
        assert(d.drop_last().subrange(0, d.len() - 1) == d.drop_last());
    } else {
        assert(d.subrange(0, k) == d);
        lemma_digits_value_nonneg(d);
    }
}

proof fn lemma_digits_value_nonneg(d: Seq<char>)
    requires
        all_digits(d),
    ensures
        0 <= digits_value(d),
    decreases d.len(),
{
    if d.len() > 0 {
        assert(is_digit(d[d.len() - 1]));
        lemma_digits_value_nonneg(d.drop_last());
    }
}

/// The value of the digits `cs[start..]` if they are one or more decimal digits denoting at
/// most `limit`.
fn digits_upto(cs: &Vec<char>, start: usize, limit: u64) -> (r: Option<u64>)
    requires
        start <= cs@.len(),
        limit >= 9,
    ensures
        ({
            let d = cs@.subrange(start as int, cs@.len() as int);
            match r {
                Some(v) => d.len() > 0 && all_digits(d) && v == digits_value(d) && v <= limit,
                None => d.len() == 0 || !all_digits(d) || digits_value(d) > limit,
            }
        }),
{
    let n = cs.len();
    if start == n {
        return None;
    }
    let ghost d = cs@.subrange(start as int, n as int);
    let mut acc: u64 = 0;
    let mut i: usize = start;
    proof {
        assert(d.subrange(0, 0) =~= Seq::<char>::empty());
    }
    while i < n
        invariant
            n == cs@.len(),
            start < n,
            start <= i <= n,
            d == cs@.subrange(start as int, n as int),
            limit >= 9,
            all_digits(d.subrange(0, i - start)),
            acc == digits_value(d.subrange(0, i - start)),
            acc <= limit,
        decreases n - i,
    {
        let c = cs[i];
        let u = c as u32;
        let ghost pre = d.subrange(0, i - start);
        let ghost next = d.subrange(0, i + 1 - start);
        proof {
            assert(next.drop_last() =~= pre);
            assert(next.last() == c);
        }
        if u < 48 || u > 57 {
            proof {
                assert(d[i - start] == c);
            }
            return None;
        }
        let dg = (u - 48) as u64;
        if acc > (limit - dg) / 10 {
            proof {
                assert(acc * 10 + dg > limit) by (nonlinear_arith)
                    requires
                        acc > (limit - dg) / 10,
                        dg <= 9,
                        limit >= 9,
                ;
                assert(all_digits(next));
                assert(digits_value(next) == acc * 10 + dg);
                if all_digits(d) {
                    lemma_digits_value_monotone(d, i + 1 - start);
                }
            }
            return None;
        }
        proof {
            assert(acc * 10 + dg <= limit) by (nonlinear_arith)
                requires
                    acc <= (limit - dg) / 10,
                    dg <= 9,
                    limit >= 9,
            ;
        }
        acc = acc * 10 + dg;
        i = i + 1;
    }
    proof {
        assert(d.subrange(0, n - start) =~= d);
    }
    Some(acc)
}

/// Rust's `s.parse::<i64>()`, `None` where that fails.
pub fn parse_i64(s: &str) -> (r: Option<i64>)
    ensures
        match r {
            Some(v) => parse_i64_spec(s@) == Some(v as int),
            None => parse_i64_spec(s@) is None,
        },
{
    let cs = crate::text::chars_of(s);
    if cs.len() == 0 {
        return None;
    }
    let neg = cs[0] == '-';
    let start: usize = if cs[0] == '-' || cs[0] == '+' {
        1
    } else {
        0
    };
    proof {
        if start == 1 {
            assert(cs@.subrange(1, cs@.len() as int) =~= s@.drop_first());
        } else {
            assert(cs@.subrange(0, cs@.len() as int) =~= s@);
        }
    }
    let limit: u64 = if neg {
        9223372036854775808
    } else {
        9223372036854775807
    };
    match digits_upto(&cs, start, limit) {
        Some(v) => {
            if neg {
                if v == 9223372036854775808 {
                    Some(i64::MIN)
                } else {
                    Some(-(v as i64))
                }
            } else {
                Some(v as i64)
            }
        },
        None => None,
    }
}

/// Rust's `s.parse::<u64>()`, `None` where that fails.
pub fn parse_u64(s: &str) -> (r: Option<u64>)
    ensures
        match r {
            Some(v) => parse_u64_spec(s@) == Some(v as int),
            None => parse_u64_spec(s@) is None,
        },
{
    let cs = crate::text::chars_of(s);
    if cs.len() == 0 {
        return None;
    }
    let start: usize = if cs[0] == '+' {
        1
    } else {
        0
    };
    proof {
        if start == 1 {
            assert(cs@.subrange(1, cs@.len() as int) =~= s@.drop_first());
        } else {
            assert(cs@.subrange(0, cs@.len() as int) =~= s@);
        }
    }
    digits_upto(&cs, start, u64::MAX)
}


/// The decimal digit character for `d`.
pub open spec fn digit_char(d: int) -> char {
    (48 + d) as char
}

/// The decimal representation of `n`, without leading zeros.
pub open spec fn decimal(n: nat) -> Seq<char>
    decreases n,
{
    if n < 10 {
        seq![digit_char(n as int)]
    } else {
        decimal(n / 10) + seq![digit_char((n % 10) as int)]
    }
}

/// The decimal representation of `v`, with a `-` for negative values.
pub open spec fn signed_decimal(v: int) -> Seq<char> {
    if v < 0 {
        seq!['-'] + decimal((-v) as nat)
    } else {
        decimal(v as nat)
    }
}

fn digit_str(d: u64) -> (r: &'static str)
    requires
        d < 10,
    ensures
        r@ == seq![digit_char(d as int)],
{
    proof {
        reveal_strlit("0123456789");
    }
    let digits = "0123456789";
    let r = digits.substring_char(d as usize, (d + 1) as usize);
    proof {
        assert(r@ =~= seq![digit_char(d as int)]);
    }
    r
}

/// `n.to_string()`.
pub fn u64_to_string(n: u64) -> (r: String)
    ensures
        r@ == decimal(n as nat),
    decreases n,
{
    if n < 10 {
        digit_str(n).to_owned()
    } else {
        let mut s = u64_to_string(n / 10);
        s.append(digit_str(n % 10));
        s
    }
}

/// `v.to_string()`.
pub fn i64_to_string(v: i64) -> (r: String)
    ensures
        r@ == signed_decimal(v as int),
{
    if v < 0 {
        let magnitude: u64 = if v == i64::MIN {
            9223372036854775808
        } else {
            (-v) as u64
        };
        proof {
            reveal_strlit("-");
        }
        let mut s = "-".to_owned();
        let tail = u64_to_string(magnitude);
        s.append(tail.as_str());
        s
    } else {
        u64_to_string(v as u64)
    }
}

proof fn lemma_decimal_digits(n: nat)
    ensures
        all_digits(decimal(n)),
        decimal(n).len() > 0,
        digits_value(decimal(n)) == n,
        decimal(n)[0] != '+' && decimal(n)[0] != '-',
    decreases n,
{
    if n < 10 {
        assert(decimal(n).drop_last() =~= Seq::<char>::empty());
        assert((digit_char(n as int) as u32) == 48 + n);
        assert(digits_value(decimal(n).drop_last()) == 0);
        assert(digits_value(decimal(n)) == digits_value(decimal(n).drop_last()) * 10 + ((decimal(n).last() as u32) - 48));
    } else {
        lemma_decimal_digits(n / 10);
        let d = decimal(n);
        assert(d.drop_last() =~= decimal(n / 10));
        assert(d.last() == digit_char((n % 10) as int));
        assert(d[0] == decimal(n / 10)[0]);
        assert((digit_char((n % 10) as int) as u32) == 48 + n % 10);
        assert((n / 10) * 10 + n % 10 == n) by (nonlinear_arith);
        assert(digits_value(d) == digits_value(d.drop_last()) * 10 + ((d.last() as u32) - 48));
    }
}

/// Writing a number in decimal and reading it back gives the number: `u64_to_string` and
/// `parse_u64` undo each other.
pub proof fn lemma_u64_round_trip(n: u64)
    ensures
        parse_u64_spec(decimal(n as nat)) == Some(n as int),
{
    lemma_decimal_digits(n as nat);
}

/// Writing an `i64` in decimal and reading it back gives the number.
pub proof fn lemma_i64_round_trip(v: i64)
    ensures
        parse_i64_spec(signed_decimal(v as int)) == Some(v as int),
{
    if v < 0 {
        let m = (-(v as int)) as nat;
        lemma_decimal_digits(m);
        let s = signed_decimal(v as int);
        assert(s.drop_first() =~= decimal(m));
    } else {
        lemma_decimal_digits(v as nat);
    }
}

} // verus!
