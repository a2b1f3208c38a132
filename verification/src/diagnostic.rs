//! The diagnostic code: a four-character code of the shape `XX?YY`,
//! whose three base-6 digits (the two before the separator and the one
//! after it) are packed into a single byte. The displayed form is the
//! base-6 string of that byte cut down to its first two digits, so
//! encoding and decoding are deliberately not a round trip.

use vstd::prelude::*;
use vstd::string::StrSliceExecFns;
use vstd::string::StringExecFns;
use crate::digits::base6_string;
use crate::digits::digit_char;
use crate::digits::digit_str;
use crate::digits::digit_value;
use crate::digits::is_base6_digit;
use crate::errors::ValueError;

verus! {

/// A compact one-byte diagnostic code, below `6 * 6 * 6`.
#[derive(Clone, Copy, Debug, PartialEq, Eq, Structural)]
pub struct DiagnosticCode {
    code: u8,
}

impl DiagnosticCode {
    /// The byte this code holds.
    pub closed spec fn spec_value(&self) -> int {
        self.code as int
    }

    #[verifier::type_invariant]
    closed spec fn inv(&self) -> bool {
        0 <= self.spec_value() < 216
    }

    /// The inputs `new` accepts: exactly four characters, of which
    /// the first, second and fourth are base-6 digits; the separator
    /// in third position may be any single-byte character.
    pub open spec fn accepted(s: Seq<char>) -> bool {
        &&& s.len() == 4
        &&& is_base6_digit(s[0])
        &&& is_base6_digit(s[1])
        &&& (s[2] as u32) < 128
        &&& is_base6_digit(s[3])
    }

    /// The byte an accepted input encodes: its three digits read as a
    /// base-6 numeral, most significant digit first.
    pub open spec fn encoded(s: Seq<char>) -> int {
        digit_value(s[0]) * 36 + digit_value(s[1]) * 6 + digit_value(s[3])
    }

    /// Parses a code like `"12-3"`: the two digits of the prefix, the
    /// separator dropped, and the suffix digit, combined into one
    /// byte. Any other shape is `InvalidInput`.
    pub fn new(value: &str) -> (r: Result<DiagnosticCode, ValueError>)
        ensures
            r is Ok <==> Self::accepted(value@),
            r is Ok ==> r->Ok_0.spec_value() == Self::encoded(value@),
            r is Err ==> r->Err_0 == ValueError::InvalidInput,
    {
        if value.unicode_len() != 4 {
            return Err(ValueError::InvalidInput);
        }
        let c0 = value.get_char(0) as u32;
        let c1 = value.get_char(1) as u32;
        let c2 = value.get_char(2) as u32;
        let c3 = value.get_char(3) as u32;
        if 48 <= c0 && c0 <= 53 && 48 <= c1 && c1 <= 53 && c2 < 128 && 48 <= c3 && c3 <= 53 {
            let d0 = (c0 - 48) as u8;
            let d1 = (c1 - 48) as u8;
            let d3 = (c3 - 48) as u8;
            Ok(DiagnosticCode { code: d0 * 36 + d1 * 6 + d3 })
        } else {
            Err(ValueError::InvalidInput)
        }
    }

    /// The displayed form of a code byte: its canonical base-6 string
    /// truncated to the first two digits. The third digit of a
    /// three-digit code is dropped on display.
    pub open spec fn displayed(code: int) -> Seq<char> {
        let s = base6_string(code);
        if s.len() <= 2 {
            s
        } else {
            s.take(2)
        }
    }

    /// Decodes the byte back to base-6 digits, most significant digit
    /// first, and keeps only the first two.
    pub fn display(&self) -> (r: String)
        ensures
            r@ == Self::displayed(self.spec_value()),
    {
        proof {
            use_type_invariant(self);
        }
        let v = self.code;
        if v < 6 {
            proof {
                assert(base6_string(v as int) =~= seq![digit_char(v as int)]);
            }
            String::from_str(digit_str(v))
        } else if v < 36 {
            let hi = digit_str(v / 6);
            let lo = digit_str(v % 6);
            proof {
                assert(base6_string((v / 6) as int) =~= seq![digit_char((v / 6) as int)]);
                assert(base6_string(v as int) =~= seq![digit_char((v / 6) as int)].push(
                    digit_char((v % 6) as int),
                ));
                assert(hi@ + lo@ =~= base6_string(v as int));
            }
            String::from_str(hi).concat(lo)
        } else {
            let q = v / 6;
            let hi = digit_str(q / 6);
            let mid = digit_str(q % 6);
            proof {
                assert(base6_string((q / 6) as int) =~= seq![digit_char((q / 6) as int)]);
                assert(base6_string(q as int) =~= seq![digit_char((q / 6) as int)].push(
                    digit_char((q % 6) as int),
                ));
                assert(base6_string(v as int) =~= base6_string(q as int).push(
                    digit_char((v % 6) as int),
                ));
                assert(base6_string(v as int).len() == 3);
                assert(hi@ + mid@ =~= base6_string(v as int).take(2));
            }
            String::from_str(hi).concat(mid)
        }
    }

    /// The held byte as a machine integer.
    pub fn value(&self) -> (r: u8)
        ensures
            r as int == self.spec_value(),
    {
        self.code
    }
}

} // verus!
