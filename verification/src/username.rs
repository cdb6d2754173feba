use crate::text::{alphabetic, is_letter, trim, trimmed};
use vstd::prelude::*;
use vstd::string::StringExecFns;

verus! {

/// A name that is not made of letters alone, or is empty.
#[derive(Debug, PartialEq, Eq, Structural)]
pub struct InvalidName;

/// A name is at least one letter, and letters only.
pub open spec fn is_name(name: Seq<char>) -> bool {
    name.len() > 0 && forall|i: int| 0 <= i < name.len() ==> alphabetic(#[trigger] name[i])
}

/// The name that a line of input gives: the line without the white space
/// around it, if that is a name.
pub fn username_of(line: &str) -> (r: Result<String, InvalidName>)
    ensures
        match r {
            Ok(name) => name@ == trimmed(line@) && is_name(name@),
            Err(_) => !is_name(trimmed(line@)),
        },
{
    let input = trim(line);
    let n = input.unicode_len();
    let mut i: usize = 0;
    while i < n
        invariant
            i <= n == input@.len(),
            input@ == trimmed(line@),
            forall|j: int| 0 <= j < i ==> alphabetic(#[trigger] input@[j]),
        decreases n - i,
    {
        if !is_letter(input.get_char(i)) {
            assert(!alphabetic(input@[i as int]));
            return Err(InvalidName);
        }
        i += 1;
    }
    if n == 0 {
        return Err(InvalidName);
    }
    Ok(String::from_str(input))
}

} // verus!
