use crate::json::{parse, parsed, quote, quoted, Json, JsonView};
use vstd::prelude::*;
use vstd::utf8::encode_utf8;

verus! {

/// Error creating BSN
#[derive(Debug, PartialEq, Eq, Structural)]
pub enum Error {
    /// The BSN was invalid
    InvalidBsn,
    TooFewDigits,
    NonNumericValue,
    Failed11Trial,
}

/// A valid BSN (burgerservicenummer), a Dutch personal identification
/// number: nine digits that pass the eleven test.
#[derive(Debug, PartialEq, Eq)]
pub struct Bsn {
    inner: String,
}

impl Clone for Bsn {
    /// The same digits.
    fn clone(&self) -> (other: Self)
        ensures
            other@ == self@,
    {
        proof {
            use_type_invariant(self);
        }
        Bsn { inner: self.inner.clone() }
    }
}

/// Why a JSON text gives no BSN.
#[derive(Debug)]
pub enum WireError {
    /// The text is not JSON; the message is that of the JSON library.
    Syntax(String),
    /// The JSON value is not a string.
    NotAString,
    /// The string is not a valid BSN.
    Invalid(Error),
}

/// The number of digits of a BSN.
pub const BSN_LENGTH: usize = 9;

/// Whether `byte` is one of `0` to `9` in ASCII.
pub open spec fn is_digit(byte: u8) -> bool {
    0x30 <= byte <= 0x39
}

/// The factor of the digit at `position` in the eleven test: nine for the
/// first digit down to two for the eighth, and minus one for the last.
pub open spec fn weight(position: int) -> int {
    if position == 8 {
        -1
    } else {
        9 - position
    }
}

/// The sum of the first `n` digits of `bytes`, each times its weight.
pub open spec fn weighted_sum(bytes: Seq<u8>, n: nat) -> int
    decreases n,
{
    if n == 0 {
        0
    } else {
        weighted_sum(bytes, (n - 1) as nat) + (bytes[n - 1] - 0x30) * weight(n - 1)
    }
}

/// What `validate` makes of a text with these bytes: the first rule that
/// the text breaks gives the error.
pub open spec fn verdict(bytes: Seq<u8>) -> Result<(), Error> {
    if bytes.len() != BSN_LENGTH {
        Err(Error::TooFewDigits)
    } else if exists|i: int| 0 <= i < bytes.len() && !is_digit(#[trigger] bytes[i]) {
        Err(Error::NonNumericValue)
    } else if weighted_sum(bytes, BSN_LENGTH as nat) % 11 != 0 {
        Err(Error::Failed11Trial)
    } else {
        Ok(())
    }
}

impl Error {
    /// What the error says to a reader.
    pub fn message(&self) -> (text: &'static str)
        ensures
            text@ == match *self {
                Error::InvalidBsn => "Invalid BSN number"@,
                Error::TooFewDigits => "Too few digits: a valid BSN has nine digits"@,
                Error::NonNumericValue => "Non-numeric value: a valid BSN contains only numerals"@,
                Error::Failed11Trial => "Failed 11 Trial"@,
            },
    {
        match self {
            Error::InvalidBsn => "Invalid BSN number",
            Error::TooFewDigits => "Too few digits: a valid BSN has nine digits",
            Error::NonNumericValue => "Non-numeric value: a valid BSN contains only numerals",
            Error::Failed11Trial => "Failed 11 Trial",
        }
    }
}

/// The text that `to_string` makes of a value. Nothing is known of it here:
/// it is whatever the type's `Display` writes.
#[verifier::external_body]
fn text_of<B: ToString>(value: &B) -> (text: String) {
    value.to_string()
}

impl Bsn {
    /// Every BSN is valid.
    #[verifier::type_invariant]
    spec fn inv(&self) -> bool {
        verdict(encode_utf8(self.inner@)).is_ok()
    }

    /// The digits of the BSN, as text.
    pub closed spec fn view(&self) -> Seq<char> {
        self.inner@
    }

    /// Try to create a new BSN. Returns `Err` if the text of `bsn` does not
    /// represent a valid BSN.
    pub fn try_from_string<B: ToString>(bsn: B) -> (r: Result<Self, Error>)
        ensures
            r matches Ok(b) ==> verdict(encode_utf8(b@)).is_ok(),
            r matches Err(e) ==> e != Error::InvalidBsn,
    {
        let bsn_str = text_of(&bsn);
        Bsn::try_from_text(bsn_str)
    }

    /// A BSN with the digits of `bsn_str`, or the error that `validate`
    /// finds in it.
    pub fn try_from_text(bsn_str: String) -> (r: Result<Self, Error>)
        ensures
            match verdict(encode_utf8(bsn_str@)) {
                Ok(()) => r matches Ok(b) && b@ == bsn_str@,
                Err(e) => r == Err::<Bsn, Error>(e),
            },
    {
        match Bsn::validate(bsn_str.as_str()) {
            Ok(()) => Ok(Bsn { inner: bsn_str }),
            Err(e) => Err(e),
        }
    }

    /// Check whether the passed string represents a valid BSN: nine bytes,
    /// each a digit, whose weighted sum is a multiple of eleven.
    pub fn validate(bsn: &str) -> (r: Result<(), Error>)
        ensures
            r == verdict(encode_utf8(bsn@)),
    {
        let bytes = bsn.as_bytes();
        if bytes.len() != BSN_LENGTH {
            return Err(Error::TooFewDigits);
        }
        let mut i: usize = 0;
        while i < BSN_LENGTH
            invariant
                i <= BSN_LENGTH == bytes@.len(),
                bytes@ == encode_utf8(bsn@),
                forall|j: int| 0 <= j < i ==> is_digit(#[trigger] bytes@[j]),
            decreases BSN_LENGTH - i,
        {
            if bytes[i] < 0x30 || bytes[i] > 0x39 {
                assert(!is_digit(bytes@[i as int]));
                return Err(Error::NonNumericValue);
            }
            i += 1;
        }
        let mut check: i32 = 0;
        let mut i: usize = 0;
        while i < BSN_LENGTH
            invariant
                i <= BSN_LENGTH == bytes@.len(),
                bytes@ == encode_utf8(bsn@),
                forall|j: int| 0 <= j < bytes@.len() ==> is_digit(#[trigger] bytes@[j]),
                check == weighted_sum(bytes@, i as nat),
                i <= 8 ==> 0 <= check,
                -9 <= check <= 81 * i,
            decreases BSN_LENGTH - i,
        {
            let digit: i32 = (bytes[i] - 0x30) as i32;
            let multiplier: i32 = if i == 8 {
                -1
            } else {
                9 - i as i32
            };
            assert(digit * multiplier == (bytes@[i as int] - 0x30) * weight(i as int))
                by (nonlinear_arith)
                requires
                    digit == bytes@[i as int] - 0x30,
                    multiplier == weight(i as int),
            ;
            assert(-9 <= digit * multiplier <= 81 && (multiplier >= 0 ==> digit * multiplier >= 0))
                by (nonlinear_arith)
                requires
                    0 <= digit <= 9,
                    -1 <= multiplier <= 9,
            ;
            check += digit * multiplier;
            i += 1;
        }
        if check % 11 != 0 {
            return Err(Error::Failed11Trial);
        }
        Ok(())
    }

    /// The digits as text.
    pub fn as_str(&self) -> (text: &str)
        ensures
            text@ == self@,
            verdict(encode_utf8(text@)).is_ok(),
    {
        proof {
            use_type_invariant(self);
        }
        self.inner.as_str()
    }

    /// The BSN as JSON: its digits as a JSON string.
    pub fn to_json(&self) -> (text: String)
        ensures
            text@ == quoted(self@),
    {
        quote(self.inner.as_str())
    }

    /// The BSN that a JSON text holds: the text has to be a JSON string, and
    /// the string a valid BSN.
    pub fn from_json(text: &str) -> (r: Result<Self, WireError>)
        ensures
            match parsed(text@) {
                Err(message) => r matches Err(WireError::Syntax(m)) && m@ == message,
                Ok(JsonView::Str(s)) => match verdict(encode_utf8(s)) {
                    Ok(()) => r matches Ok(b) && b@ == s,
                    Err(e) => r matches Err(WireError::Invalid(found)) && found == e,
                },
                Ok(_) => r matches Err(WireError::NotAString),
            },
    {
        match parse(text) {
            Err(message) => Err(WireError::Syntax(message)),
            Ok(Json::Str(s)) => match Bsn::try_from_text(s) {
                Ok(bsn) => Ok(bsn),
                Err(e) => Err(WireError::Invalid(e)),
            },
            Ok(_) => Err(WireError::NotAString),
        }
    }
}

} // verus!
