use crate::text::{split_words, words_of};
use vstd::prelude::*;
use vstd::utf8::encode_utf8;

verus! {

/// The words in the first `n` of `lines`.
pub open spec fn total_words(lines: Seq<String>, n: nat) -> nat
    decreases n,
{
    if n == 0 {
        0
    } else {
        total_words(lines, (n - 1) as nat) + words_of(lines[n - 1]@).len()
    }
}

/// The bytes in the first `n` of `lines`, line ends not counted.
pub open spec fn total_bytes(lines: Seq<String>, n: nat) -> nat
    decreases n,
{
    if n == 0 {
        0
    } else {
        total_bytes(lines, (n - 1) as nat) + encode_utf8(lines[n - 1]@).len()
    }
}

/// Neither total grows along the lines beyond what it is at their end.
proof fn lemma_totals_grow(lines: Seq<String>, n: nat, m: nat)
    requires
        n <= m,
    ensures
        total_words(lines, n) <= total_words(lines, m),
        total_bytes(lines, n) <= total_bytes(lines, m),
    decreases m - n,
{
    if n < m {
        lemma_totals_grow(lines, n, (m - 1) as nat);
    }
}

/// How many lines, words and bytes a text of these lines has. The totals
/// have to fit the machine's numbers.
pub fn count_bytes_and_lines(lines: &Vec<String>) -> (counts: (usize, usize, usize))
    requires
        total_words(lines@, lines@.len()) <= usize::MAX,
        total_bytes(lines@, lines@.len()) <= usize::MAX,
    ensures
        counts.0 == lines@.len(),
        counts.1 == total_words(lines@, lines@.len()),
        counts.2 == total_bytes(lines@, lines@.len()),
{
    let mut line_count: usize = 0;
    let mut word_count: usize = 0;
    let mut byte_count: usize = 0;
    while line_count < lines.len()
        invariant
            line_count <= lines@.len(),
            word_count == total_words(lines@, line_count as nat),
            byte_count == total_bytes(lines@, line_count as nat),
            total_words(lines@, lines@.len()) <= usize::MAX,
            total_bytes(lines@, lines@.len()) <= usize::MAX,
        decreases lines@.len() - line_count,
    {
        let text = lines[line_count].as_str();
        proof {
            lemma_totals_grow(lines@, (line_count + 1) as nat, lines@.len());
        }
        word_count += split_words(text).len();
        byte_count += text.len();
        line_count += 1;
    }
    (line_count, word_count, byte_count)
}

/// The counts of a text of these lines, or `None` where a total does not
/// fit the machine's numbers.
pub fn try_count_bytes_and_lines(lines: &Vec<String>) -> (counts: Option<(usize, usize, usize)>)
    ensures
        match counts {
            Some(counts) => {
                &&& counts.0 == lines@.len()
                &&& counts.1 == total_words(lines@, lines@.len())
                &&& counts.2 == total_bytes(lines@, lines@.len())
            },
            None => total_words(lines@, lines@.len()) > usize::MAX || total_bytes(
                lines@,
                lines@.len(),
            ) > usize::MAX,
        },
{
    let mut words: usize = 0;
    let mut bytes: usize = 0;
    let mut i: usize = 0;
    while i < lines.len()
        invariant
            i <= lines@.len(),
            words == total_words(lines@, i as nat),
            bytes == total_bytes(lines@, i as nat),
        decreases lines@.len() - i,
    {
        let text = lines[i].as_str();
        let more_words = split_words(text).len();
        let more_bytes = text.as_bytes().len();
        if more_words > usize::MAX - words || more_bytes > usize::MAX - bytes {
            proof {
                lemma_totals_grow(lines@, (i + 1) as nat, lines@.len());
            }
            return None;
        }
        words += more_words;
        bytes += more_bytes;
        i += 1;
    }
    Some(count_bytes_and_lines(lines))
}

} // verus!
