use vstd::prelude::*;
use crate::text::{i64_to_string, int_val, is_int_syntax, parse_i64, spec_int_string};

verus! {

/// An optional value: present or absent. An absent value combines with a
/// present one as the identity under the arithmetic helpers below, and an
/// empty string parses to it.
#[derive(Debug, Clone, PartialEq)]
pub enum Optional<T> {
    /// Contains a value of type `T`.
    Present(T),
    /// Represents the absence of a value.
    Absent,
}

/// Division as the machine performs it on signed integers: the quotient of
/// the magnitudes, negated when the signs differ (truncation toward zero).
pub open spec fn trunc_div(a: int, b: int) -> int {
    let q = (if a < 0 {
        -a
    } else {
        a
    }) / (if b < 0 {
        -b
    } else {
        b
    });
    if (a < 0) != (b < 0) {
        -q
    } else {
        q
    }
}

/// The error parsing text into an optional value reports.
#[derive(Debug, Clone, Copy, PartialEq, Eq, Structural)]
pub struct ParseFailure;

/// What parsing text as an optional 32-bit integer yields: absent for the
/// empty string, the value when the text is integer-shaped and fits, nothing
/// otherwise.
pub open spec fn spec_parse_optional_i32(s: Seq<char>) -> Option<Optional<i32>> {
    if s.len() == 0 {
        Some(Optional::Absent)
    } else if is_int_syntax(s) && -2147483648 <= int_val(s) <= 2147483647 {
        Some(Optional::Present(int_val(s) as i32))
    } else {
        None
    }
}

impl Optional<i32> {
    /// Parses text into an optional 32-bit integer: the empty string parses
    /// to an absent value, integer-shaped text in range to a present one,
    /// and anything else fails.
    pub fn parse_text(s: &str) -> (r: Result<Optional<i32>, ParseFailure>)
        ensures
            match spec_parse_optional_i32(s@) {
                Some(v) => r == Ok::<Optional<i32>, ParseFailure>(v),
                None => r == Err::<Optional<i32>, ParseFailure>(ParseFailure),
            },
    {
        if s.unicode_len() == 0 {
            return Ok(Optional::Absent);
        }
        match parse_i64(s) {
            Option::Some(n) => if -2147483648 <= n && n <= 2147483647 {
                Ok(Optional::Present(n as i32))
            } else {
                Err(ParseFailure)
            },
            Option::None => Err(ParseFailure),
        }
    }

    /// The value as a display string: its decimal rendering, or `None` when
    /// it is absent.
    pub fn display_string(&self) -> (r: String)
        ensures
            match *self {
                Optional::Present(v) => r@ == spec_int_string(v as int),
                Optional::Absent => r@ == "None"@,
            },
    {
        match self {
            Optional::Present(v) => i64_to_string(*v as i64),
            Optional::Absent => String::from_str("None"),
        }
    }

    /// Adds two optional values: both present add, one present stands alone,
    /// both absent stay absent.
    pub fn add(self, other: Self) -> (r: Self)
        requires
            self matches Optional::Present(a) && other matches Optional::Present(b)
                ==> i32::MIN <= a + b <= i32::MAX,
        ensures
            match (self, other) {
                (Optional::Present(a), Optional::Present(b)) => r == Optional::Present(
                    (a + b) as i32,
                ),
                (Optional::Present(a), Optional::Absent) => r == Optional::Present(a),
                (Optional::Absent, Optional::Present(b)) => r == Optional::Present(b),
                (Optional::Absent, Optional::Absent) => r == Optional::<i32>::Absent,
            },
    {
        match (self, other) {
            (Optional::Present(a), Optional::Present(b)) => Optional::Present(a + b),
            (Optional::Present(a), Optional::Absent) => Optional::Present(a),
            (Optional::Absent, Optional::Present(b)) => Optional::Present(b),
            (Optional::Absent, Optional::Absent) => Optional::Absent,
        }
    }

    /// Subtracts two optional values: both present subtract, one present
    /// stands alone, both absent stay absent.
    pub fn sub(self, other: Self) -> (r: Self)
        requires
            self matches Optional::Present(a) && other matches Optional::Present(b)
                ==> i32::MIN <= a - b <= i32::MAX,
        ensures
            match (self, other) {
                (Optional::Present(a), Optional::Present(b)) => r == Optional::Present(
                    (a - b) as i32,
                ),
                (Optional::Present(a), Optional::Absent) => r == Optional::Present(a),
                (Optional::Absent, Optional::Present(b)) => r == Optional::Present(b),
                (Optional::Absent, Optional::Absent) => r == Optional::<i32>::Absent,
            },
    {
        match (self, other) {
            (Optional::Present(a), Optional::Present(b)) => Optional::Present(a - b),
            (Optional::Present(a), Optional::Absent) => Optional::Present(a),
            (Optional::Absent, Optional::Present(b)) => Optional::Present(b),
            (Optional::Absent, Optional::Absent) => Optional::Absent,
        }
    }

    /// Multiplies two optional values: both present multiply, one present
    /// stands alone, both absent stay absent.
    pub fn mul(self, other: Self) -> (r: Self)
        requires
            self matches Optional::Present(a) && other matches Optional::Present(b)
                ==> i32::MIN <= a * b <= i32::MAX,
        ensures
            match (self, other) {
                (Optional::Present(a), Optional::Present(b)) => r == Optional::Present(
                    (a * b) as i32,
                ),
                (Optional::Present(a), Optional::Absent) => r == Optional::Present(a),
                (Optional::Absent, Optional::Present(b)) => r == Optional::Present(b),
                (Optional::Absent, Optional::Absent) => r == Optional::<i32>::Absent,
            },
    {
        match (self, other) {
            (Optional::Present(a), Optional::Present(b)) => Optional::Present(a * b),
            (Optional::Present(a), Optional::Absent) => Optional::Present(a),
            (Optional::Absent, Optional::Present(b)) => Optional::Present(b),
            (Optional::Absent, Optional::Absent) => Optional::Absent,
        }
    }

    /// Divides two optional values: both present divide, one present stands
    /// alone, both absent stay absent. Division by zero, and the one
    /// overflowing quotient, are ruled out up front.
    pub fn div(self, other: Self) -> (r: Self)
        requires
            self matches Optional::Present(a) && other matches Optional::Present(b) ==> b != 0 && !(
            a == i32::MIN && b == -1),
        ensures
            match (self, other) {
                (Optional::Present(a), Optional::Present(b)) => b != 0 && r == Optional::Present(
                    trunc_div(a as int, b as int) as i32,
                ),
                (Optional::Present(a), Optional::Absent) => r == Optional::Present(a),
                (Optional::Absent, Optional::Present(b)) => r == Optional::Present(b),
                (Optional::Absent, Optional::Absent) => r == Optional::<i32>::Absent,
            },
    {
        match (self, other) {
            (Optional::Present(a), Optional::Present(b)) => {
                let aa = a as i64;
                let bb = b as i64;
                let am: i64 = if aa < 0 {
                    -aa
                } else {
                    aa
                };
                let bm: i64 = if bb < 0 {
                    -bb
                } else {
                    bb
                };
                let q: i64 = am / bm;
                proof {
                    assert(q <= am) by (nonlinear_arith)
                        requires
                            am >= 0,
                            bm >= 1,
                            q == am / bm,
                    ;
                }
                let neg = (a < 0) != (b < 0);
                let res: i64 = if neg {
                    -q
                } else {
                    q
                };
                Optional::Present(res as i32)
            },
            (Optional::Present(a), Optional::Absent) => Optional::Present(a),
            (Optional::Absent, Optional::Present(b)) => Optional::Present(b),
            (Optional::Absent, Optional::Absent) => Optional::Absent,
        }
    }
}

impl<T> Default for Optional<T> {
    /// The default optional value is the absent one.
    fn default() -> (r: Self)
        ensures
            r is Absent,
    {
        Optional::Absent
    }
}

impl core::str::FromStr for Optional<i32> {
    type Err = ParseFailure;

    fn from_str(s: &str) -> Result<Self, Self::Err> {
        Optional::<i32>::parse_text(s)
    }
}

} // verus!
