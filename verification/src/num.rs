//! Verified decimal integer parsing: the value contract behind the integer
//! argument types. Mirrors the usual library behaviour: an optional sign,
//! then one or more ASCII digits, scanned left to right, with overflow
//! reported the moment the accumulated value would leave the target range.

use vstd::prelude::*;
use vstd::arithmetic::div_mod::lemma_fundamental_div_mod;
use vstd::string::StrSliceExecFns;

verus! {

/// Why a decimal integer failed to parse.
#[derive(Debug, Clone, Copy, PartialEq, Eq)]
pub enum IntParseError {
    /// The input was empty.
    Empty,
    /// A character was not an ASCII digit (or a bare sign had no digits).
    InvalidDigit,
    /// The value exceeded the largest value of the target type.
    PosOverflow,
    /// The value fell below the smallest value of the target type.
    NegOverflow,
}

/// Whether `c` is an ASCII decimal digit.
pub open spec fn is_ascii_digit(c: char) -> bool {
    48 <= (c as u32) <= 57
}

/// The numeric value of an ASCII decimal digit.
pub open spec fn digit_val(c: char) -> int {
    (c as u32) - 48
}

/// Scans digits left to right, accumulating `acc`; fails on the first
/// non-digit, or the moment the value exceeds `limit` (reported as positive
/// or negative overflow according to `neg`).
pub open spec fn spec_parse_digits(s: Seq<char>, acc: int, limit: int, neg: bool) -> Result<
    int,
    IntParseError,
>
    decreases s.len(),
{
    if s.len() == 0 {
        Ok(acc)
    } else if !is_ascii_digit(s[0]) {
        Err(IntParseError::InvalidDigit)
    } else if acc * 10 + digit_val(s[0]) > limit {
        Err(if neg {
            IntParseError::NegOverflow
        } else {
            IntParseError::PosOverflow
        })
    } else {
        spec_parse_digits(s.drop_first(), acc * 10 + digit_val(s[0]), limit, neg)
    }
}

/// Parsing an unsigned decimal: an optional `+`, then one or more digits,
/// value at most `limit`.
pub open spec fn spec_parse_unsigned(s: Seq<char>, limit: int) -> Result<int, IntParseError> {
    if s.len() == 0 {
        Err(IntParseError::Empty)
    } else {
        let body = if s[0] == '+' {
            s.drop_first()
        } else {
            s
        };
        if body.len() == 0 {
            Err(IntParseError::InvalidDigit)
        } else {
            spec_parse_digits(body, 0, limit, false)
        }
    }
}

/// Parsing a signed decimal: an optional `+` or `-`, then one or more
/// digits; the magnitude may reach `neg_limit` when negative and `pos_limit`
/// when positive.
pub open spec fn spec_parse_signed(s: Seq<char>, neg_limit: int, pos_limit: int) -> Result<
    int,
    IntParseError,
> {
    if s.len() == 0 {
        Err(IntParseError::Empty)
    } else {
        let neg = s[0] == '-';
        let body = if s[0] == '-' || s[0] == '+' {
            s.drop_first()
        } else {
            s
        };
        if body.len() == 0 {
            Err(IntParseError::InvalidDigit)
        } else {
            match spec_parse_digits(body, 0, if neg { neg_limit } else { pos_limit }, neg) {
                Ok(m) => Ok(
                    if neg {
                        -m
                    } else {
                        m
                    },
                ),
                Err(e) => Err(e),
            }
        }
    }
}

/// A successful digit scan stays within its limit.
pub proof fn lemma_parse_digits_bounds(s: Seq<char>, acc: int, limit: int, neg: bool)
    requires
        0 <= acc <= limit,
    ensures
        match spec_parse_digits(s, acc, limit, neg) {
            Ok(v) => 0 <= v <= limit,
            Err(_) => true,
        },
    decreases s.len(),
{
    if s.len() > 0 && is_ascii_digit(s[0]) && acc * 10 + digit_val(s[0]) <= limit {
        assert(acc * 10 >= 0) by (nonlinear_arith)
            requires
                acc >= 0,
        ;
        lemma_parse_digits_bounds(s.drop_first(), acc * 10 + digit_val(s[0]), limit, neg);
    }
}

/// The digit scan of [`spec_parse_digits`], on `s[from..]`.
fn parse_digits(s: &str, from: usize, limit: u128, neg: bool) -> (r: Result<u128, IntParseError>)
    requires
        from <= s@.len(),
        9 <= limit,
    ensures
        match r {
            Ok(v) => v <= limit && spec_parse_digits(
                s@.subrange(from as int, s@.len() as int),
                0,
                limit as int,
                neg,
            ) == Ok::<int, IntParseError>(v as int),
            Err(e) => spec_parse_digits(
                s@.subrange(from as int, s@.len() as int),
                0,
                limit as int,
                neg,
            ) == Err::<int, IntParseError>(e),
        },
{
    let n = s.unicode_len();
    let mut acc: u128 = 0;
    let mut i: usize = from;
    proof {
        assert(s@.subrange(from as int, n as int).subrange(0, n - from) =~= s@.subrange(
            from as int,
            n as int,
        ));
    }
    while i < n
        invariant
            n == s@.len(),
            from <= i <= n,
            9 <= limit,
            acc <= limit,
            spec_parse_digits(s@.subrange(from as int, n as int), 0, limit as int, neg)
                == spec_parse_digits(s@.subrange(i as int, n as int), acc as int, limit as int, neg),
        decreases n - i,
    {
        let ghost rest = s@.subrange(i as int, n as int);
        proof {
            assert(rest[0] == s@[i as int]);
            assert(rest.drop_first() =~= s@.subrange(i + 1, n as int));
        }
        let c = s.get_char(i);
        let cv = c as u32;
        if cv < 48 || cv > 57 {
            return Err(IntParseError::InvalidDigit);
        }
        let d: u128 = (cv - 48) as u128;
        // acc * 10 + d > limit exactly when acc > (limit - d) / 10
        let q: u128 = (limit - d) / 10;
        proof {
            lemma_fundamental_div_mod((limit - d) as int, 10);
            assert(acc <= q ==> acc * 10 <= q * 10) by (nonlinear_arith);
            assert(acc > q ==> acc * 10 >= (q + 1) * 10) by (nonlinear_arith);
        }
        if acc > q {
            return Err(
                if neg {
                    IntParseError::NegOverflow
                } else {
                    IntParseError::PosOverflow
                },
            );
        }
        acc = acc * 10 + d;
        i = i + 1;
    }
    proof {
        assert(s@.subrange(n as int, n as int) =~= Seq::<char>::empty());
    }
    Ok(acc)
}

/// Parses an unsigned decimal with values up to `limit`, proved equal to
/// [`spec_parse_unsigned`].
pub fn parse_unsigned_str(s: &str, limit: u128) -> (r: Result<u128, IntParseError>)
    requires
        9 <= limit,
    ensures
        match r {
            Ok(v) => v <= limit && spec_parse_unsigned(s@, limit as int) == Ok::<
                int,
                IntParseError,
            >(v as int),
            Err(e) => spec_parse_unsigned(s@, limit as int) == Err::<int, IntParseError>(e),
        },
{
    let n = s.unicode_len();
    if n == 0 {
        return Err(IntParseError::Empty);
    }
    let from: usize = if s.get_char(0) == '+' {
        1
    } else {
        0
    };
    proof {
        if s@[0] == '+' {
            assert(s@.drop_first() =~= s@.subrange(1, n as int));
        } else {
            assert(s@ =~= s@.subrange(0, n as int));
        }
    }
    if n == from {
        return Err(IntParseError::InvalidDigit);
    }
    let ghost body = s@.subrange(from as int, n as int);
    proof {
        assert(body =~= s@.subrange(from as int, s@.len() as int));
    }
    parse_digits(s, from, limit, false)
}

/// Parses a signed decimal whose magnitude may reach `neg_limit` when
/// negative and `pos_limit` when positive, proved equal to
/// [`spec_parse_signed`].
pub fn parse_signed_str(s: &str, neg_limit: u128, pos_limit: u128) -> (r: Result<
    i128,
    IntParseError,
>)
    requires
        9 <= neg_limit <= 0x8000_0000_0000_0000_0000_0000_0000_0000u128,
        9 <= pos_limit <= 0x7fff_ffff_ffff_ffff_ffff_ffff_ffff_ffffu128,
    ensures
        match r {
            Ok(v) => -(neg_limit as int) <= v <= pos_limit as int && spec_parse_signed(
                s@,
                neg_limit as int,
                pos_limit as int,
            ) == Ok::<int, IntParseError>(v as int),
            Err(e) => spec_parse_signed(s@, neg_limit as int, pos_limit as int) == Err::<
                int,
                IntParseError,
            >(e),
        },
{
    let n = s.unicode_len();
    if n == 0 {
        return Err(IntParseError::Empty);
    }
    let c0 = s.get_char(0);
    let neg = c0 == '-';
    let from: usize = if c0 == '-' || c0 == '+' {
        1
    } else {
        0
    };
    proof {
        if s@[0] == '-' || s@[0] == '+' {
            assert(s@.drop_first() =~= s@.subrange(1, n as int));
        } else {
            assert(s@ =~= s@.subrange(0, n as int));
        }
    }
    if n == from {
        return Err(IntParseError::InvalidDigit);
    }
    let limit: u128 = if neg {
        neg_limit
    } else {
        pos_limit
    };
    proof {
        assert(s@.subrange(from as int, n as int) =~= s@.subrange(from as int, s@.len() as int));
    }
    match parse_digits(s, from, limit, neg) {
        Ok(m) => {
            if neg {
                if m == 0 {
                    Ok(0)
                } else {
                    Ok(-((m - 1) as i128) - 1)
                }
            } else {
                Ok(m as i128)
            }
        },
        Err(e) => Err(e),
    }
}

} // verus!
