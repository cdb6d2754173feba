use crate::decimal::{decimal, decimal_string};
use vstd::prelude::*;
use vstd::string::StringExecFns;

verus! {

/// One term of the FizzBuzz sequence.
pub enum Term {
    Fizz,
    Buzz,
    FizzBuzz,
    Number(u32),
}

/// The term that stands at position `i`: `FizzBuzz` for multiples of fifteen,
/// `Fizz` for the other multiples of three, `Buzz` for the other multiples of
/// five, and the number itself otherwise.
pub open spec fn term_of(i: int) -> Term
    recommends
        0 <= i <= u32::MAX,
{
    if i % 3 == 0 && i % 5 == 0 {
        Term::FizzBuzz
    } else if i % 3 == 0 {
        Term::Fizz
    } else if i % 5 == 0 {
        Term::Buzz
    } else {
        Term::Number(i as u32)
    }
}

impl Term {
    /// How the term is written: its name, or the number in decimal.
    pub open spec fn text(self) -> Seq<char> {
        match self {
            Term::Fizz => "Fizz"@,
            Term::Buzz => "Buzz"@,
            Term::FizzBuzz => "FizzBuzz"@,
            Term::Number(x) => decimal(x as nat),
        }
    }

    pub fn to_string(&self) -> (text: String)
        ensures
            text@ == self.text(),
    {
        match *self {
            Term::Fizz => String::from_str("Fizz"),
            Term::Buzz => String::from_str("Buzz"),
            Term::FizzBuzz => String::from_str("FizzBuzz"),
            Term::Number(x) => decimal_string(x as u64),
        }
    }
}

/// The term at position `i` of the sequence.
pub fn fizz_buzz(i: u32) -> (term: Term)
    ensures
        term == term_of(i as int),
{
    match (i % 3 == 0, i % 5 == 0) {
        (true, true) => Term::FizzBuzz,
        (true, false) => Term::Fizz,
        (false, true) => Term::Buzz,
        (false, false) => Term::Number(i),
    }
}

} // verus!
