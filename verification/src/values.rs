//! Validated value types: operator names and signal percentages.
//! Each constructor checks its invariant and never panics; display is
//! the exact inverse of parsing.

use vstd::prelude::*;
use vstd::string::StrSliceExecFns;
use vstd::string::StringExecFns;
use vstd::utf8::is_ascii_chars;
use crate::digits::all_dec_digits;
use crate::digits::dec_digits_value;
use crate::digits::dec_string;
use crate::digits::digit_char;
use crate::digits::digit_str;
use crate::digits::digit_value;
use crate::digits::is_dec_digit;
use crate::digits::lemma_dec_digits_value_nonneg;
use crate::digits::lemma_dec_string_value;
use crate::errors::ValueError;

verus! {

/// A short human-readable label for the device or a talk target:
/// at most six characters, all of them ASCII. Immutable once
/// constructed; rejected inputs are never truncated.
#[derive(Debug)]
pub struct OperatorName {
    text: String,
}

impl View for OperatorName {
    type V = Seq<char>;

    closed spec fn view(&self) -> Seq<char> {
        self.text@
    }
}

impl OperatorName {
    /// The invariant every operator name satisfies.
    pub open spec fn valid(s: Seq<char>) -> bool {
        s.len() <= 6 && is_ascii_chars(s)
    }

    #[verifier::type_invariant]
    closed spec fn inv(&self) -> bool {
        Self::valid(self@)
    }

    /// Accepts exactly the strings of at most six ASCII characters
    /// and stores them unchanged; everything else is `InvalidInput`.
    pub fn new(value: &str) -> (r: Result<OperatorName, ValueError>)
        ensures
            r is Ok <==> Self::valid(value@),
            r is Ok ==> r->Ok_0@ == value@,
            r is Err ==> r->Err_0 == ValueError::InvalidInput,
    {
        if value.unicode_len() <= 6 && value.is_ascii() {
            Ok(OperatorName { text: String::from_str(value) })
        } else {
            Err(ValueError::InvalidInput)
        }
    }

    /// The displayed form: exactly the characters given at
    /// construction.
    pub fn as_text(&self) -> (r: &str)
        ensures
            r@ == self@,
    {
        self.text.as_str()
    }
}

/// A wifi signal strength: an integer 0 through 100. A new value
/// replaces the old one on every environment refresh.
#[derive(Clone, Copy, Debug, PartialEq, Eq, Structural)]
pub struct SignalPercent {
    percent: u8,
}

/// `v` unchanged while it can still decide acceptance, else pinned
/// just above the largest acceptable percentage.
spec fn clamped(v: int) -> int {
    if v <= 101 {
        v
    } else {
        101
    }
}

impl SignalPercent {
    /// The percentage this value holds.
    pub closed spec fn spec_value(&self) -> int {
        self.percent as int
    }

    #[verifier::type_invariant]
    closed spec fn inv(&self) -> bool {
        0 <= self.spec_value() <= 100
    }

    /// The inputs `new` accepts: a nonempty string of decimal digits
    /// denoting at most 100.
    pub open spec fn accepted(s: Seq<char>) -> bool {
        s.len() > 0 && all_dec_digits(s) && dec_digits_value(s) <= 100
    }

    /// Parses a decimal string. Succeeds exactly on nonempty digit
    /// strings denoting 0 through 100, and holds that number;
    /// anything else, including 101 and above, is `InvalidInput`.
    pub fn new(value: &str) -> (r: Result<SignalPercent, ValueError>)
        ensures
            r is Ok <==> Self::accepted(value@),
            r is Ok ==> r->Ok_0.spec_value() == dec_digits_value(value@),
            r is Err ==> r->Err_0 == ValueError::InvalidInput,
    {
        let n = value.unicode_len();
        if n == 0 {
            return Err(ValueError::InvalidInput);
        }
        let mut acc: u16 = 0;
        let mut i: usize = 0;
        while i < n
            invariant
                0 < n == value@.len(),
                i <= n,
                all_dec_digits(value@.take(i as int)),
                acc as int == clamped(dec_digits_value(value@.take(i as int))),
            decreases n - i,
        {
            let c = value.get_char(i);
            let u = c as u32;
            if u < 48 || u > 57 {
                proof {
                    assert(!is_dec_digit(value@[i as int]));
                }
                return Err(ValueError::InvalidInput);
            }
            let d = (u - 48) as u16;
            proof {
                let prefix = value@.take(i as int);
                let next = value@.take(i as int + 1);
                assert(next.drop_last() =~= prefix);
                assert(next.last() == value@[i as int]);
                lemma_dec_digits_value_nonneg(prefix);
                assert(dec_digits_value(next) == dec_digits_value(prefix) * 10 + digit_value(
                    value@[i as int],
                ));
                if dec_digits_value(prefix) > 101 {
                    assert(dec_digits_value(prefix) * 10 + digit_value(value@[i as int]) > 101)
                        by (nonlinear_arith)
                        requires
                            dec_digits_value(prefix) > 101,
                            digit_value(value@[i as int]) >= 0,
                    ;
                }
            }
            acc = acc * 10 + d;
            if acc > 101 {
                acc = 101;
            }
            i = i + 1;
        }
        proof {
            assert(value@.take(n as int) =~= value@);
        }
        if acc <= 100 {
            Ok(SignalPercent { percent: acc as u8 })
        } else {
            Err(ValueError::InvalidInput)
        }
    }

    /// The displayed form: the canonical decimal string of the held
    /// percentage, with no sign and no leading zeros.
    pub fn display(&self) -> (r: String)
        ensures
            r@ == dec_string(self.spec_value()),
    {
        proof {
            use_type_invariant(self);
        }
        let v = self.percent;
        if v >= 100 {
            proof {
                reveal_strlit("100");
                assert(dec_string(1) =~= seq!['1']);
                assert(dec_string(10) =~= seq!['1', '0']);
                assert(dec_string(100) =~= seq!['1', '0', '0']);
                assert("100"@ =~= seq!['1', '0', '0']);
            }
            String::from_str("100")
        } else if v >= 10 {
            let hi = digit_str(v / 10);
            let lo = digit_str(v % 10);
            proof {
                assert(dec_string((v / 10) as int) =~= seq![digit_char((v / 10) as int)]);
                assert(dec_string(v as int) =~= seq![digit_char((v / 10) as int)].push(
                    digit_char((v % 10) as int),
                ));
                assert(hi@ + lo@ =~= dec_string(v as int));
            }
            String::from_str(hi).concat(lo)
        } else {
            proof {
                assert(dec_string(v as int) =~= seq![digit_char(v as int)]);
            }
            String::from_str(digit_str(v))
        }
    }

    /// The text of the signal region: the percentage followed by a
    /// percent sign.
    pub fn label(&self) -> (r: String)
        ensures
            r@ == dec_string(self.spec_value()) + "%"@,
    {
        self.display().concat("%")
    }

    /// The held percentage as a machine integer.
    pub fn value(&self) -> (r: u8)
        ensures
            r as int == self.spec_value(),
    {
        self.percent
    }
}

/// For every integer 0 through 100, the canonical decimal string is a
/// nonempty digit string denoting that same integer: such a string is
/// accepted by `SignalPercent::new`, and the value it constructs
/// displays the identical string again.
pub proof fn lemma_percent_decimal_round_trip(n: int)
    requires
        0 <= n <= 100,
    ensures
        SignalPercent::accepted(dec_string(n)),
        dec_digits_value(dec_string(n)) == n,
{
    lemma_dec_string_value(n);
}

} // verus!
