use vstd::prelude::*;

verus! {

/// Why the quiz file could not be read or written.
pub struct StorageError {
    pub message: String,
}

/// What the quiz program talks to: a console and the file that keeps the
/// quiz. The four spec functions say what an interface stands for; every
/// method says what it does to them. An interface that lives outside the
/// verified code, such as the console of the process, cannot say what it
/// stands for: the spec functions then stand for nothing in particular, and
/// that it keeps to what the methods promise is taken on trust.
pub trait Interface {
    /// The lines that are still to be read from the console, the next one
    /// first, each without its line end.
    open spec fn input(&self) -> Seq<Seq<char>> {
        arbitrary()
    }

    /// All that was written to the console so far.
    open spec fn output(&self) -> Seq<char> {
        arbitrary()
    }

    /// What reading the quiz file gives: its text, or the message of the
    /// error where it cannot be read.
    open spec fn stored(&self) -> Result<Seq<char>, Seq<char>> {
        arbitrary()
    }

    /// What writing `text` to the quiz file fails with: the message of the
    /// error, or `None` where the text is written.
    open spec fn write_failure(&self, text: Seq<char>) -> Option<Seq<char>> {
        arbitrary()
    }

    /// The next line of the console, or `None` at the end of the input.
    fn read_stdin_line(&mut self) -> (line: Option<String>)
        ensures
            final(self).output() == old(self).output(),
            final(self).stored() == old(self).stored(),
            forall|t: Seq<char>| #[trigger] final(self).write_failure(t) == old(self).write_failure(t),
            match line {
                Some(text) => old(self).input().len() > 0 && text@ == old(self).input()[0]
                    && final(self).input() == old(self).input().drop_first(),
                None => old(self).input().len() == 0 && final(self).input() == old(self).input(),
            },
    ;

    /// Writes `text` to the console.
    fn write_stdout(&mut self, text: &str)
        ensures
            final(self).input() == old(self).input(),
            final(self).stored() == old(self).stored(),
            forall|t: Seq<char>| #[trigger] final(self).write_failure(t) == old(self).write_failure(t),
            final(self).output() == old(self).output() + text@,
    ;

    /// Writes `text` and a line end to the console.
    fn write_stdout_line(&mut self, text: &str)
        ensures
            final(self).input() == old(self).input(),
            final(self).stored() == old(self).stored(),
            forall|t: Seq<char>| #[trigger] final(self).write_failure(t) == old(self).write_failure(t),
            final(self).output() == old(self).output() + text@ + seq!['\n'],
    ;

    /// The text of the quiz file, or the error that reading it met.
    fn read_quiz_json(&mut self) -> (r: Result<String, StorageError>)
        ensures
            final(self).input() == old(self).input(),
            final(self).output() == old(self).output(),
            final(self).stored() == old(self).stored(),
            forall|t: Seq<char>| #[trigger] final(self).write_failure(t) == old(self).write_failure(t),
            match r {
                Ok(text) => old(self).stored() == Ok::<Seq<char>, Seq<char>>(text@),
                Err(e) => old(self).stored() == Err::<Seq<char>, Seq<char>>(e.message@),
            },
    ;

    /// Replaces the text of the quiz file by `text`, or returns the error
    /// that writing met; what the file holds after an error is left open.
    fn write_quiz_json(&mut self, text: &str) -> (r: Result<(), StorageError>)
        ensures
            final(self).input() == old(self).input(),
            final(self).output() == old(self).output(),
            match r {
                Ok(()) => old(self).write_failure(text@).is_none() && final(self).stored() == Ok::<
                    Seq<char>,
                    Seq<char>,
                >(text@),
                Err(e) => old(self).write_failure(text@) == Some(e.message@),
            },
    ;
}

} // verus!
