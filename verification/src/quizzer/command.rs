use crate::quizzer::add::added;
use crate::quizzer::interface::Interface;
use crate::quizzer::quiz::{quiz_run, run_quiz};
use vstd::prelude::*;

verus! {

/// What the program can be asked to do.
pub enum Commands {
    /// Adds questions to the quiz
    Add,
    /// Runs the quiz
    Quiz,
}

/// The line that is written where no command is given.
pub open spec fn help_text() -> Seq<char> {
    "Try ./quizzer --help"@ + seq!['\n']
}

/// Does what `command` asks for, or points to the help where there is none.
pub fn run<I: Interface + ?Sized>(command: Option<Commands>, inter: &mut I)
    ensures
        match command {
            Some(Commands::Add) => added(
                old(inter).stored(),
                old(inter).input(),
                old(inter).output(),
                |t: Seq<char>| old(inter).write_failure(t),
                final(inter).stored(),
                final(inter).input(),
                final(inter).output(),
            ),
            Some(Commands::Quiz) => final(inter).stored() == old(inter).stored() && quiz_run(
                old(inter).stored(),
                old(inter).input(),
                old(inter).output(),
                final(inter).input(),
                final(inter).output(),
            ),
            None => {
                &&& final(inter).stored() == old(inter).stored()
                &&& final(inter).input() == old(inter).input()
                &&& final(inter).output() == old(inter).output() + help_text()
            },
        },
{
    match command {
        Some(Commands::Add) => {
            crate::quizzer::add::add(inter);
        },
        Some(Commands::Quiz) => run_quiz(inter),
        None => inter.write_stdout_line("Try ./quizzer --help"),
    }
}

} // verus!
