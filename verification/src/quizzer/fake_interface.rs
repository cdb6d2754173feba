use crate::quizzer::interface::{Interface, StorageError};
use crate::text::{lines_of, split_lines};
use vstd::prelude::*;
use vstd::string::StringExecFns;

verus! {

/// An interface that lives in memory: its input is a text given in advance,
/// what is written is kept, and so is the quiz file.
pub struct FakeInterface {
    stdin: Vec<String>,
    std_lines_read: usize,
    stdout: String,
    saved_json: Option<String>,
}

impl FakeInterface {
    /// What was written so far.
    pub closed spec fn written(&self) -> Seq<char> {
        self.stdout@
    }

    /// The quiz file, if one was written.
    pub closed spec fn saved(&self) -> Option<Seq<char>> {
        match self.saved_json {
            Some(text) => Some(text@),
            None => None,
        }
    }

    /// The lines that were not read yet.
    pub closed spec fn unread(&self) -> Seq<Seq<char>> {
        if self.std_lines_read <= self.stdin@.len() {
            Seq::new(
                (self.stdin@.len() - self.std_lines_read) as nat,
                |i: int| self.stdin@[self.std_lines_read + i]@,
            )
        } else {
            Seq::empty()
        }
    }

    /// An interface whose input is the empty text.
    pub fn new() -> (inter: Self)
        ensures
            inter.unread() == lines_of(Seq::<char>::empty()),
            inter.written() == Seq::<char>::empty(),
            inter.saved().is_none(),
    {
        proof {
            reveal_strlit("");
            assert(""@ =~= Seq::<char>::empty());
        }
        Self::with_stdin("")
    }

    /// Creates a FakeInterface with the provided text set as the stdin.
    pub fn with_stdin(text: &str) -> (inter: Self)
        ensures
            inter.unread() == lines_of(text@),
            inter.written() == Seq::<char>::empty(),
            inter.saved().is_none(),
    {
        let inter = Self {
            stdin: split_lines(text),
            std_lines_read: 0,
            stdout: String::new(),
            saved_json: None,
        };
        assert(inter.unread() =~= lines_of(text@));
        inter
    }

    /// All that was written to the console.
    pub fn stdout(&self) -> (text: &str)
        ensures
            text@ == self.written(),
    {
        self.stdout.as_str()
    }

    /// The quiz file as it was last written. There has to be one.
    pub fn quiz_file(&self) -> (text: String)
        requires
            self.saved().is_some(),
        ensures
            Some(text@) == self.saved(),
    {
        match &self.saved_json {
            Some(text) => text.clone(),
            None => vstd::pervasive::unreached(),
        }
    }
}

impl Interface for FakeInterface {
    open spec fn input(&self) -> Seq<Seq<char>> {
        self.unread()
    }

    open spec fn output(&self) -> Seq<char> {
        self.written()
    }

    /// Reading never fails: a quiz file that was never written reads as an
    /// empty text.
    open spec fn stored(&self) -> Result<Seq<char>, Seq<char>> {
        match self.saved() {
            Some(text) => Ok(text),
            None => Ok(Seq::empty()),
        }
    }

    /// Writing never fails.
    open spec fn write_failure(&self, text: Seq<char>) -> Option<Seq<char>> {
        None
    }

    fn read_stdin_line(&mut self) -> (line: Option<String>) {
        if self.std_lines_read < self.stdin.len() {
            let line = self.stdin[self.std_lines_read].clone();
            self.std_lines_read += 1;
            proof {
                assert(self.unread() =~= old(self).unread().drop_first());
            }
            Some(line)
        } else {
            None
        }
    }

    fn write_stdout(&mut self, text: &str) {
        self.stdout.append(text);
    }

    fn write_stdout_line(&mut self, text: &str) {
        proof {
            reveal_strlit("\n");
        }
        self.stdout.append(text);
        self.stdout.append("\n");
        proof {
            assert("\n"@ =~= seq!['\n']);
            assert(self.stdout@ =~= old(self).stdout@ + text@ + seq!['\n']);
        }
    }

    fn read_quiz_json(&mut self) -> (r: Result<String, StorageError>) {
        match &self.saved_json {
            Some(contents) => Ok(contents.clone()),
            None => Ok(String::new()),
        }
    }

    /// Writes quiz contents to the quiz file. In memory this never fails:
    /// the file then holds `text`, and the console is as it was.
    fn write_quiz_json(&mut self, text: &str) -> (r: Result<(), StorageError>)
        ensures
            r.is_ok(),
            final(self).saved() == Some(text@),
            final(self).unread() == old(self).unread(),
            final(self).written() == old(self).written(),
    {
        self.saved_json = Some(String::from_str(text));
        Ok(())
    }
}

} // verus!
