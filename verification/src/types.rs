//! The value contract: how a slot's raw resolved state becomes a typed value.
//!
//! Each type that can back a slot implements [`ArgumentType`]: a parse
//! function from an optional raw string, whether the type consumes a
//! following CLI token, whether repeated occurrences accumulate, and an
//! optional contract-level default used when the slot was never set.
//!
//! Implementations inside this crate carry proofs: they set
//! [`ArgumentType::obeys_contract`] to true and each exec method is verified
//! against the spec members. Implementations outside this crate are ordinary
//! Rust; for them `obeys_contract` stays at its default `false` and the
//! contracts here promise nothing.

use vstd::prelude::*;

use crate::num::{spec_parse_signed, spec_parse_unsigned, parse_signed_str, parse_unsigned_str, IntParseError};
use crate::strutil::split_commas;

verus! {

/// The type returned when retrieving an argument: `None` when the slot was
/// never set and the type has no contract default.
pub type ArgResult<T> = Option<Result<T, <T as ArgumentType>::Error>>;

/// The type returned when retrieving an argument with a caller default.
pub type DefaultedArgResult<T> = Result<T, <T as ArgumentType>::Error>;

/// The view of an optional raw string handed to a parse function.
pub open spec fn opt_str_view(val: Option<&str>) -> Option<Seq<char>> {
    match val {
        Option::None => Option::None,
        Option::Some(s) => Option::Some(s@),
    }
}

/// A type that can be used as an argument.
pub trait ArgumentType: Sized {
    /// A parsing error.
    type Error;

    /// Whether this implementation promises the spec members below. Outside
    /// implementations leave this at the default `false`, and the contracts
    /// on the exec methods then claim nothing.
    open spec fn obeys_contract() -> bool {
        false
    }

    /// What `from_value` may return for a given raw state.
    open spec fn from_value_ensures(val: Option<Seq<char>>, r: Option<Result<Self, Self::Error>>) -> bool {
        true
    }

    /// Whether this type consumes a following CLI token.
    open spec fn spec_consumes() -> bool {
        true
    }

    /// Whether repeated occurrences accumulate instead of overwriting.
    open spec fn spec_repeatable() -> bool {
        false
    }

    /// What `default_value` may return.
    open spec fn default_value_ensures(r: Option<Self>) -> bool {
        true
    }

    /// Perform parsing on the raw value. `val` is `None` when the slot was
    /// set without a value (a bare flag).
    fn from_value(val: Option<&str>) -> (r: ArgResult<Self>)
        ensures
            Self::obeys_contract() ==> Self::from_value_ensures(opt_str_view(val), r),
    ;

    /// Whether or not this type consumes a following CLI token.
    fn consumes() -> (b: bool)
        ensures
            Self::obeys_contract() ==> b == Self::spec_consumes(),
    ;

    /// Whether this argument accumulates values across repeated occurrences
    /// instead of overwriting.
    fn repeatable() -> (b: bool)
        ensures
            Self::obeys_contract() ==> b == Self::spec_repeatable(),
    ;

    /// If the slot was never set, what the default should be, if any.
    fn default_value() -> (r: Option<Self>)
        ensures
            Self::obeys_contract() ==> Self::default_value_ensures(r),
    ;
}

/// The error of a parse that cannot fail; no value of it is ever made.
#[derive(Debug, Clone, Copy, PartialEq, Eq)]
pub struct NoError;

impl ArgumentType for String {
    type Error = NoError;

    open spec fn obeys_contract() -> bool {
        true
    }

    open spec fn from_value_ensures(val: Option<Seq<char>>, r: Option<Result<Self, Self::Error>>) -> bool {
        match val {
            Option::None => r is None,
            Option::Some(s) => match r {
                Option::Some(Result::Ok(out)) => out@ == s,
                _ => false,
            },
        }
    }

    open spec fn default_value_ensures(r: Option<Self>) -> bool {
        r is None
    }

    fn from_value(val: Option<&str>) -> (r: ArgResult<Self>)
        ensures
            Self::obeys_contract() ==> Self::from_value_ensures(opt_str_view(val), r),
    {
        match val {
            Option::None => Option::None,
            Option::Some(s) => Option::Some(Result::Ok(String::from_str(s))),
        }
    }

    fn consumes() -> (b: bool)
        ensures
            Self::obeys_contract() ==> b == Self::spec_consumes(),
    {
        true
    }

    fn repeatable() -> (b: bool)
        ensures
            Self::obeys_contract() ==> b == Self::spec_repeatable(),
    {
        false
    }

    fn default_value() -> (r: Option<Self>)
        ensures
            Self::obeys_contract() ==> Self::default_value_ensures(r),
    {
        Option::None
    }
}

impl ArgumentType for bool {
    type Error = NoError;

    open spec fn obeys_contract() -> bool {
        true
    }

    open spec fn from_value_ensures(val: Option<Seq<char>>, r: Option<Result<Self, Self::Error>>) -> bool {
        r == Option::Some(Result::<bool, NoError>::Ok(spec_truthy(val)))
    }

    open spec fn spec_consumes() -> bool {
        false
    }

    open spec fn default_value_ensures(r: Option<Self>) -> bool {
        r == Option::Some(false)
    }

    fn from_value(val: Option<&str>) -> (r: ArgResult<Self>)
        ensures
            Self::obeys_contract() ==> Self::from_value_ensures(opt_str_view(val), r),
    {
        let b = match val {
            Option::None => true,
            Option::Some(s) => {
                crate::strutil::str_eq(s, "true") || crate::strutil::str_eq(s, "1")
                    || crate::strutil::str_eq(s, "t")
            },
        };
        Option::Some(Result::Ok(b))
    }

    fn consumes() -> (b: bool)
        ensures
            Self::obeys_contract() ==> b == Self::spec_consumes(),
    {
        false
    }

    fn repeatable() -> (b: bool)
        ensures
            Self::obeys_contract() ==> b == Self::spec_repeatable(),
    {
        false
    }

    fn default_value() -> (r: Option<Self>)
        ensures
            Self::obeys_contract() ==> Self::default_value_ensures(r),
    {
        Option::Some(false)
    }
}

/// Whether some value of `T` is a valid successful parse of `part`.
pub open spec fn parses_ok<T: ArgumentType>(part: Seq<char>) -> bool {
    exists|x: T| T::from_value_ensures(Some(part), Some(Result::Ok(x)))
}

/// Whether `e` is a valid first failure among `parts`: some piece may fail
/// with `e` while every earlier piece parses.
pub open spec fn first_failure_is<T: ArgumentType>(parts: Seq<Seq<char>>, e: T::Error) -> bool {
    exists|i: int|
        0 <= i < parts.len() && #[trigger] T::from_value_ensures(
            Some(parts[i]),
            Some(Result::Err(e)),
        ) && (forall|j: int| 0 <= j < i ==> parses_ok::<T>(#[trigger] parts[j]))
}

/// Whether some piece of `parts` may parse to "absent".
pub open spec fn some_piece_absent<T: ArgumentType>(parts: Seq<Seq<char>>) -> bool {
    exists|i: int|
        0 <= i < parts.len() && #[trigger] T::from_value_ensures(
            Some(parts[i]),
            None::<Result<T, T::Error>>,
        )
}

/// A bare flag is true; an explicit value (as set by the environment
/// overlay) is true exactly for the strings `true`, `1` and `t`.
pub open spec fn spec_truthy(val: Option<Seq<char>>) -> bool {
    match val {
        Option::None => true,
        Option::Some(s) => s == "true"@ || s == "1"@ || s == "t"@,
    }
}


impl ArgumentType for u8 {
    type Error = IntParseError;

    open spec fn obeys_contract() -> bool {
        true
    }

    open spec fn from_value_ensures(val: Option<Seq<char>>, r: Option<Result<Self, Self::Error>>) -> bool {
        match val {
            Option::None => r is None,
            Option::Some(s) => match (spec_parse_unsigned(s, u8::MAX as int), r) {
                (Result::Ok(v), Option::Some(Result::Ok(x))) => x as int == v,
                (Result::Err(e), Option::Some(Result::Err(e2))) => e2 == e,
                _ => false,
            },
        }
    }

    open spec fn default_value_ensures(r: Option<Self>) -> bool {
        r is None
    }

    fn from_value(val: Option<&str>) -> (r: ArgResult<Self>)
        ensures
            Self::obeys_contract() ==> Self::from_value_ensures(opt_str_view(val), r),
    {
        match val {
            Option::None => Option::None,
            Option::Some(s) => Option::Some(
                match parse_unsigned_str(s, u8::MAX as u128) {
                    Result::Ok(v) => Result::Ok(v as u8),
                    Result::Err(e) => Result::Err(e),
                },
            ),
        }
    }

    fn consumes() -> (b: bool)
        ensures
            Self::obeys_contract() ==> b == Self::spec_consumes(),
    {
        true
    }

    fn repeatable() -> (b: bool)
        ensures
            Self::obeys_contract() ==> b == Self::spec_repeatable(),
    {
        false
    }

    fn default_value() -> (r: Option<Self>)
        ensures
            Self::obeys_contract() ==> Self::default_value_ensures(r),
    {
        Option::None
    }
}

impl ArgumentType for u16 {
    type Error = IntParseError;

    open spec fn obeys_contract() -> bool {
        true
    }

    open spec fn from_value_ensures(val: Option<Seq<char>>, r: Option<Result<Self, Self::Error>>) -> bool {
        match val {
            Option::None => r is None,
            Option::Some(s) => match (spec_parse_unsigned(s, u16::MAX as int), r) {
                (Result::Ok(v), Option::Some(Result::Ok(x))) => x as int == v,
                (Result::Err(e), Option::Some(Result::Err(e2))) => e2 == e,
                _ => false,
            },
        }
    }

    open spec fn default_value_ensures(r: Option<Self>) -> bool {
        r is None
    }

    fn from_value(val: Option<&str>) -> (r: ArgResult<Self>)
        ensures
            Self::obeys_contract() ==> Self::from_value_ensures(opt_str_view(val), r),
    {
        match val {
            Option::None => Option::None,
            Option::Some(s) => Option::Some(
                match parse_unsigned_str(s, u16::MAX as u128) {
                    Result::Ok(v) => Result::Ok(v as u16),
                    Result::Err(e) => Result::Err(e),
                },
            ),
        }
    }

    fn consumes() -> (b: bool)
        ensures
            Self::obeys_contract() ==> b == Self::spec_consumes(),
    {
        true
    }

    fn repeatable() -> (b: bool)
        ensures
            Self::obeys_contract() ==> b == Self::spec_repeatable(),
    {
        false
    }

    fn default_value() -> (r: Option<Self>)
        ensures
            Self::obeys_contract() ==> Self::default_value_ensures(r),
    {
        Option::None
    }
}

impl ArgumentType for u32 {
    type Error = IntParseError;

    open spec fn obeys_contract() -> bool {
        true
    }

    open spec fn from_value_ensures(val: Option<Seq<char>>, r: Option<Result<Self, Self::Error>>) -> bool {
        match val {
            Option::None => r is None,
            Option::Some(s) => match (spec_parse_unsigned(s, u32::MAX as int), r) {
                (Result::Ok(v), Option::Some(Result::Ok(x))) => x as int == v,
                (Result::Err(e), Option::Some(Result::Err(e2))) => e2 == e,
                _ => false,
            },
        }
    }

    open spec fn default_value_ensures(r: Option<Self>) -> bool {
        r is None
    }

    fn from_value(val: Option<&str>) -> (r: ArgResult<Self>)
        ensures
            Self::obeys_contract() ==> Self::from_value_ensures(opt_str_view(val), r),
    {
        match val {
            Option::None => Option::None,
            Option::Some(s) => Option::Some(
                match parse_unsigned_str(s, u32::MAX as u128) {
                    Result::Ok(v) => Result::Ok(v as u32),
                    Result::Err(e) => Result::Err(e),
                },
            ),
        }
    }

    fn consumes() -> (b: bool)
        ensures
            Self::obeys_contract() ==> b == Self::spec_consumes(),
    {
        true
    }

    fn repeatable() -> (b: bool)
        ensures
            Self::obeys_contract() ==> b == Self::spec_repeatable(),
    {
        false
    }

    fn default_value() -> (r: Option<Self>)
        ensures
            Self::obeys_contract() ==> Self::default_value_ensures(r),
    {
        Option::None
    }
}

impl ArgumentType for u64 {
    type Error = IntParseError;

    open spec fn obeys_contract() -> bool {
        true
    }

    open spec fn from_value_ensures(val: Option<Seq<char>>, r: Option<Result<Self, Self::Error>>) -> bool {
        match val {
            Option::None => r is None,
            Option::Some(s) => match (spec_parse_unsigned(s, u64::MAX as int), r) {
                (Result::Ok(v), Option::Some(Result::Ok(x))) => x as int == v,
                (Result::Err(e), Option::Some(Result::Err(e2))) => e2 == e,
                _ => false,
            },
        }
    }

    open spec fn default_value_ensures(r: Option<Self>) -> bool {
        r is None
    }

    fn from_value(val: Option<&str>) -> (r: ArgResult<Self>)
        ensures
            Self::obeys_contract() ==> Self::from_value_ensures(opt_str_view(val), r),
    {
        match val {
            Option::None => Option::None,
            Option::Some(s) => Option::Some(
                match parse_unsigned_str(s, u64::MAX as u128) {
                    Result::Ok(v) => Result::Ok(v as u64),
                    Result::Err(e) => Result::Err(e),
                },
            ),
        }
    }

    fn consumes() -> (b: bool)
        ensures
            Self::obeys_contract() ==> b == Self::spec_consumes(),
    {
        true
    }

    fn repeatable() -> (b: bool)
        ensures
            Self::obeys_contract() ==> b == Self::spec_repeatable(),
    {
        false
    }

    fn default_value() -> (r: Option<Self>)
        ensures
            Self::obeys_contract() ==> Self::default_value_ensures(r),
    {
        Option::None
    }
}

impl ArgumentType for u128 {
    type Error = IntParseError;

    open spec fn obeys_contract() -> bool {
        true
    }

    open spec fn from_value_ensures(val: Option<Seq<char>>, r: Option<Result<Self, Self::Error>>) -> bool {
        match val {
            Option::None => r is None,
            Option::Some(s) => match (spec_parse_unsigned(s, u128::MAX as int), r) {
                (Result::Ok(v), Option::Some(Result::Ok(x))) => x as int == v,
                (Result::Err(e), Option::Some(Result::Err(e2))) => e2 == e,
                _ => false,
            },
        }
    }

    open spec fn default_value_ensures(r: Option<Self>) -> bool {
        r is None
    }

    fn from_value(val: Option<&str>) -> (r: ArgResult<Self>)
        ensures
            Self::obeys_contract() ==> Self::from_value_ensures(opt_str_view(val), r),
    {
        match val {
            Option::None => Option::None,
            Option::Some(s) => Option::Some(
                match parse_unsigned_str(s, u128::MAX) {
                    Result::Ok(v) => Result::Ok(v),
                    Result::Err(e) => Result::Err(e),
                },
            ),
        }
    }

    fn consumes() -> (b: bool)
        ensures
            Self::obeys_contract() ==> b == Self::spec_consumes(),
    {
        true
    }

    fn repeatable() -> (b: bool)
        ensures
            Self::obeys_contract() ==> b == Self::spec_repeatable(),
    {
        false
    }

    fn default_value() -> (r: Option<Self>)
        ensures
            Self::obeys_contract() ==> Self::default_value_ensures(r),
    {
        Option::None
    }
}

impl ArgumentType for usize {
    type Error = IntParseError;

    open spec fn obeys_contract() -> bool {
        true
    }

    open spec fn from_value_ensures(val: Option<Seq<char>>, r: Option<Result<Self, Self::Error>>) -> bool {
        match val {
            Option::None => r is None,
            Option::Some(s) => match (spec_parse_unsigned(s, usize::MAX as int), r) {
                (Result::Ok(v), Option::Some(Result::Ok(x))) => x as int == v,
                (Result::Err(e), Option::Some(Result::Err(e2))) => e2 == e,
                _ => false,
            },
        }
    }

    open spec fn default_value_ensures(r: Option<Self>) -> bool {
        r is None
    }

    fn from_value(val: Option<&str>) -> (r: ArgResult<Self>)
        ensures
            Self::obeys_contract() ==> Self::from_value_ensures(opt_str_view(val), r),
    {
        match val {
            Option::None => Option::None,
            Option::Some(s) => Option::Some(
                match parse_unsigned_str(s, usize::MAX as u128) {
                    Result::Ok(v) => Result::Ok(v as usize),
                    Result::Err(e) => Result::Err(e),
                },
            ),
        }
    }

    fn consumes() -> (b: bool)
        ensures
            Self::obeys_contract() ==> b == Self::spec_consumes(),
    {
        true
    }

    fn repeatable() -> (b: bool)
        ensures
            Self::obeys_contract() ==> b == Self::spec_repeatable(),
    {
        false
    }

    fn default_value() -> (r: Option<Self>)
        ensures
            Self::obeys_contract() ==> Self::default_value_ensures(r),
    {
        Option::None
    }
}

impl ArgumentType for i8 {
    type Error = IntParseError;

    open spec fn obeys_contract() -> bool {
        true
    }

    open spec fn from_value_ensures(val: Option<Seq<char>>, r: Option<Result<Self, Self::Error>>) -> bool {
        match val {
            Option::None => r is None,
            Option::Some(s) => match (spec_parse_signed(s, (i8::MAX as int) + 1, i8::MAX as int), r) {
                (Result::Ok(v), Option::Some(Result::Ok(x))) => x as int == v,
                (Result::Err(e), Option::Some(Result::Err(e2))) => e2 == e,
                _ => false,
            },
        }
    }

    open spec fn default_value_ensures(r: Option<Self>) -> bool {
        r is None
    }

    fn from_value(val: Option<&str>) -> (r: ArgResult<Self>)
        ensures
            Self::obeys_contract() ==> Self::from_value_ensures(opt_str_view(val), r),
    {
        match val {
            Option::None => Option::None,
            Option::Some(s) => Option::Some(
                match parse_signed_str(s, (i8::MAX as u128) + 1, i8::MAX as u128) {
                    Result::Ok(v) => Result::Ok(v as i8),
                    Result::Err(e) => Result::Err(e),
                },
            ),
        }
    }

    fn consumes() -> (b: bool)
        ensures
            Self::obeys_contract() ==> b == Self::spec_consumes(),
    {
        true
    }

    fn repeatable() -> (b: bool)
        ensures
            Self::obeys_contract() ==> b == Self::spec_repeatable(),
    {
        false
    }

    fn default_value() -> (r: Option<Self>)
        ensures
            Self::obeys_contract() ==> Self::default_value_ensures(r),
    {
        Option::None
    }
}

impl ArgumentType for i16 {
    type Error = IntParseError;

    open spec fn obeys_contract() -> bool {
        true
    }

    open spec fn from_value_ensures(val: Option<Seq<char>>, r: Option<Result<Self, Self::Error>>) -> bool {
        match val {
            Option::None => r is None,
            Option::Some(s) => match (spec_parse_signed(s, (i16::MAX as int) + 1, i16::MAX as int), r) {
                (Result::Ok(v), Option::Some(Result::Ok(x))) => x as int == v,
                (Result::Err(e), Option::Some(Result::Err(e2))) => e2 == e,
                _ => false,
            },
        }
    }

    open spec fn default_value_ensures(r: Option<Self>) -> bool {
        r is None
    }

    fn from_value(val: Option<&str>) -> (r: ArgResult<Self>)
        ensures
            Self::obeys_contract() ==> Self::from_value_ensures(opt_str_view(val), r),
    {
        match val {
            Option::None => Option::None,
            Option::Some(s) => Option::Some(
                match parse_signed_str(s, (i16::MAX as u128) + 1, i16::MAX as u128) {
                    Result::Ok(v) => Result::Ok(v as i16),
                    Result::Err(e) => Result::Err(e),
                },
            ),
        }
    }

    fn consumes() -> (b: bool)
        ensures
            Self::obeys_contract() ==> b == Self::spec_consumes(),
    {
        true
    }

    fn repeatable() -> (b: bool)
        ensures
            Self::obeys_contract() ==> b == Self::spec_repeatable(),
    {
        false
    }

    fn default_value() -> (r: Option<Self>)
        ensures
            Self::obeys_contract() ==> Self::default_value_ensures(r),
    {
        Option::None
    }
}

impl ArgumentType for i32 {
    type Error = IntParseError;

    open spec fn obeys_contract() -> bool {
        true
    }

    open spec fn from_value_ensures(val: Option<Seq<char>>, r: Option<Result<Self, Self::Error>>) -> bool {
        match val {
            Option::None => r is None,
            Option::Some(s) => match (spec_parse_signed(s, (i32::MAX as int) + 1, i32::MAX as int), r) {
                (Result::Ok(v), Option::Some(Result::Ok(x))) => x as int == v,
                (Result::Err(e), Option::Some(Result::Err(e2))) => e2 == e,
                _ => false,
            },
        }
    }

    open spec fn default_value_ensures(r: Option<Self>) -> bool {
        r is None
    }

    fn from_value(val: Option<&str>) -> (r: ArgResult<Self>)
        ensures
            Self::obeys_contract() ==> Self::from_value_ensures(opt_str_view(val), r),
    {
        match val {
            Option::None => Option::None,
            Option::Some(s) => Option::Some(
                match parse_signed_str(s, (i32::MAX as u128) + 1, i32::MAX as u128) {
                    Result::Ok(v) => Result::Ok(v as i32),
                    Result::Err(e) => Result::Err(e),
                },
            ),
        }
    }

    fn consumes() -> (b: bool)
        ensures
            Self::obeys_contract() ==> b == Self::spec_consumes(),
    {
        true
    }

    fn repeatable() -> (b: bool)
        ensures
            Self::obeys_contract() ==> b == Self::spec_repeatable(),
    {
        false
    }

    fn default_value() -> (r: Option<Self>)
        ensures
            Self::obeys_contract() ==> Self::default_value_ensures(r),
    {
        Option::None
    }
}

impl ArgumentType for i64 {
    type Error = IntParseError;

    open spec fn obeys_contract() -> bool {
        true
    }

    open spec fn from_value_ensures(val: Option<Seq<char>>, r: Option<Result<Self, Self::Error>>) -> bool {
        match val {
            Option::None => r is None,
            Option::Some(s) => match (spec_parse_signed(s, (i64::MAX as int) + 1, i64::MAX as int), r) {
                (Result::Ok(v), Option::Some(Result::Ok(x))) => x as int == v,
                (Result::Err(e), Option::Some(Result::Err(e2))) => e2 == e,
                _ => false,
            },
        }
    }

    open spec fn default_value_ensures(r: Option<Self>) -> bool {
        r is None
    }

    fn from_value(val: Option<&str>) -> (r: ArgResult<Self>)
        ensures
            Self::obeys_contract() ==> Self::from_value_ensures(opt_str_view(val), r),
    {
        match val {
            Option::None => Option::None,
            Option::Some(s) => Option::Some(
                match parse_signed_str(s, (i64::MAX as u128) + 1, i64::MAX as u128) {
                    Result::Ok(v) => Result::Ok(v as i64),
                    Result::Err(e) => Result::Err(e),
                },
            ),
        }
    }

    fn consumes() -> (b: bool)
        ensures
            Self::obeys_contract() ==> b == Self::spec_consumes(),
    {
        true
    }

    fn repeatable() -> (b: bool)
        ensures
            Self::obeys_contract() ==> b == Self::spec_repeatable(),
    {
        false
    }

    fn default_value() -> (r: Option<Self>)
        ensures
            Self::obeys_contract() ==> Self::default_value_ensures(r),
    {
        Option::None
    }
}

impl ArgumentType for i128 {
    type Error = IntParseError;

    open spec fn obeys_contract() -> bool {
        true
    }

    open spec fn from_value_ensures(val: Option<Seq<char>>, r: Option<Result<Self, Self::Error>>) -> bool {
        match val {
            Option::None => r is None,
            Option::Some(s) => match (spec_parse_signed(s, (i128::MAX as int) + 1, i128::MAX as int), r) {
                (Result::Ok(v), Option::Some(Result::Ok(x))) => x as int == v,
                (Result::Err(e), Option::Some(Result::Err(e2))) => e2 == e,
                _ => false,
            },
        }
    }

    open spec fn default_value_ensures(r: Option<Self>) -> bool {
        r is None
    }

    fn from_value(val: Option<&str>) -> (r: ArgResult<Self>)
        ensures
            Self::obeys_contract() ==> Self::from_value_ensures(opt_str_view(val), r),
    {
        match val {
            Option::None => Option::None,
            Option::Some(s) => Option::Some(
                match parse_signed_str(s, 0x8000_0000_0000_0000_0000_0000_0000_0000u128, i128::MAX as u128) {
                    Result::Ok(v) => Result::Ok(v),
                    Result::Err(e) => Result::Err(e),
                },
            ),
        }
    }

    fn consumes() -> (b: bool)
        ensures
            Self::obeys_contract() ==> b == Self::spec_consumes(),
    {
        true
    }

    fn repeatable() -> (b: bool)
        ensures
            Self::obeys_contract() ==> b == Self::spec_repeatable(),
    {
        false
    }

    fn default_value() -> (r: Option<Self>)
        ensures
            Self::obeys_contract() ==> Self::default_value_ensures(r),
    {
        Option::None
    }
}

impl ArgumentType for isize {
    type Error = IntParseError;

    open spec fn obeys_contract() -> bool {
        true
    }

    open spec fn from_value_ensures(val: Option<Seq<char>>, r: Option<Result<Self, Self::Error>>) -> bool {
        match val {
            Option::None => r is None,
            Option::Some(s) => match (spec_parse_signed(s, (isize::MAX as int) + 1, isize::MAX as int), r) {
                (Result::Ok(v), Option::Some(Result::Ok(x))) => x as int == v,
                (Result::Err(e), Option::Some(Result::Err(e2))) => e2 == e,
                _ => false,
            },
        }
    }

    open spec fn default_value_ensures(r: Option<Self>) -> bool {
        r is None
    }

    fn from_value(val: Option<&str>) -> (r: ArgResult<Self>)
        ensures
            Self::obeys_contract() ==> Self::from_value_ensures(opt_str_view(val), r),
    {
        match val {
            Option::None => Option::None,
            Option::Some(s) => Option::Some(
                match parse_signed_str(s, (isize::MAX as u128) + 1, isize::MAX as u128) {
                    Result::Ok(v) => Result::Ok(v as isize),
                    Result::Err(e) => Result::Err(e),
                },
            ),
        }
    }

    fn consumes() -> (b: bool)
        ensures
            Self::obeys_contract() ==> b == Self::spec_consumes(),
    {
        true
    }

    fn repeatable() -> (b: bool)
        ensures
            Self::obeys_contract() ==> b == Self::spec_repeatable(),
    {
        false
    }

    fn default_value() -> (r: Option<Self>)
        ensures
            Self::obeys_contract() ==> Self::default_value_ensures(r),
    {
        Option::None
    }
}

impl<T: ArgumentType> ArgumentType for Vec<T> {
    type Error = T::Error;

    open spec fn obeys_contract() -> bool {
        T::obeys_contract()
    }

    open spec fn from_value_ensures(val: Option<Seq<char>>, r: Option<Result<Self, Self::Error>>) -> bool {
        match val {
            Option::None => r is None,
            Option::Some(s) => {
                let parts = split_commas(s);
                match r {
                    Option::Some(Result::Ok(v)) => v@.len() == parts.len() && (forall|i: int|
                        0 <= i < parts.len() ==> T::from_value_ensures(
                            Some(parts[i]),
                            Some(Result::Ok(#[trigger] v@[i])),
                        )),
                    Option::Some(Result::Err(e)) => first_failure_is::<T>(parts, e),
                    Option::None => some_piece_absent::<T>(parts),
                }
            },
        }
    }

    open spec fn spec_repeatable() -> bool {
        true
    }

    open spec fn default_value_ensures(r: Option<Self>) -> bool {
        r is None
    }

    fn from_value(val: Option<&str>) -> (r: ArgResult<Self>)
        ensures
            Self::obeys_contract() ==> Self::from_value_ensures(opt_str_view(val), r),
    {
        match val {
            Option::None => Option::None,
            Option::Some(s) => {
                let parts = crate::strutil::split_str_commas(s);
                let ghost sparts = split_commas(s@);
                let mut values: Vec<T> = Vec::new();
                let mut k: usize = 0;
                while k < parts.len()
                    invariant
                        sparts == split_commas(s@),
                        opt_str_view(val) == Some(s@),
                        parts.deep_view() == sparts,
                        k <= parts@.len(),
                        values@.len() == k,
                        forall|i: int|
                            0 <= i < k ==> T::obeys_contract() ==> T::from_value_ensures(
                                Some(sparts[i]),
                                Some(Result::Ok(#[trigger] values@[i])),
                            ),
                    decreases parts@.len() - k,
                {
                    proof {
                        assert(parts.deep_view()[k as int] == parts@[k as int]@);
                    }
                    match T::from_value(Some(parts[k].as_str())) {
                        Option::Some(Result::Ok(t)) => {
                            values.push(t);
                        },
                        Option::Some(Result::Err(e)) => {
                            proof {
                                if T::obeys_contract() {
                                    assert forall|j: int| 0 <= j < k as int implies parses_ok::<
                                        T,
                                    >(#[trigger] sparts[j]) by {
                                        assert(T::from_value_ensures(
                                            Some(sparts[j]),
                                            Some(Result::Ok(values@[j])),
                                        ));
                                    }
                                    assert(0 <= (k as int) && (k as int) < sparts.len() && T::from_value_ensures(
                                        Some(sparts[k as int]),
                                        Some(Result::Err(e)),
                                    ));
                                    assert(first_failure_is::<T>(sparts, e));
                                }
                            }
                            return Option::Some(Result::Err(e));
                        },
                        Option::None => {
                            proof {
                                if T::obeys_contract() {
                                    assert(0 <= (k as int) && (k as int) < sparts.len() && T::from_value_ensures(
                                        Some(sparts[k as int]),
                                        None::<Result<T, T::Error>>,
                                    ));
                                    assert(some_piece_absent::<T>(sparts));
                                }
                            }
                            return Option::None;
                        },
                    }
                    k = k + 1;
                }
                proof {
                    assert(sparts.len() == parts@.len());
                }
                Option::Some(Result::Ok(values))
            },
        }
    }

    fn consumes() -> (b: bool)
        ensures
            Self::obeys_contract() ==> b == Self::spec_consumes(),
    {
        true
    }

    fn repeatable() -> (b: bool)
        ensures
            Self::obeys_contract() ==> b == Self::spec_repeatable(),
    {
        true
    }

    fn default_value() -> (r: Option<Self>)
        ensures
            Self::obeys_contract() ==> Self::default_value_ensures(r),
    {
        Option::None
    }
}

} // verus!
