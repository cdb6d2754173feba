use crate::quizzer::interface::Interface;
use crate::quizzer::quiz::{
    load_failure_text, load_quiz, loaded, save_quiz, Question, QuestionView,
};
use crate::quizzer::quiz_file::quiz_text;
use crate::text::{lowercase, lowercased, same_text, trim, trimmed};
use vstd::prelude::*;
use vstd::string::StringExecFns;

verus! {

/// How many wrong answers a question gets.
pub const WRONG_ANSWERS: usize = 3;

/// How many lines of input a round takes: the question, the right answer,
/// the wrong answers, and whether to go on.
pub const ROUND_LINES: usize = 6;

/// Whether `answer` asks for another round: it is `y`, in either case and
/// with or without white space around it.
pub open spec fn says_yes(answer: Seq<char>) -> bool {
    lowercased(trimmed(answer)) == "y"@
}

/// The word for the wrong answer at `position`.
pub open spec fn ordinal(position: int) -> Seq<char> {
    if position == 0 {
        "first"@
    } else if position == 1 {
        "second"@
    } else {
        "third"@
    }
}

/// The line that asks for the wrong answer at `position`.
pub open spec fn wrong_answer_prompt(position: int) -> Seq<char> {
    "Enter the "@ + ordinal(position) + " incorrect answer:"@ + seq!['\n']
}

/// The lines that ask for the first `n` wrong answers.
pub open spec fn wrong_answer_prompts(n: nat) -> Seq<char>
    decreases n,
{
    if n == 0 {
        Seq::empty()
    } else {
        wrong_answer_prompts((n - 1) as nat) + wrong_answer_prompt(n - 1)
    }
}

/// What is written in a round for which `lines` lines of input are there:
/// each line that is read brings the next prompt, and the last wrong answer
/// brings the two lines that end a round.
pub open spec fn round_prompts(lines: nat) -> Seq<char> {
    "Enter a new question:"@ + seq!['\n'] + (if lines >= 1 {
        "Enter the correct answer:"@ + seq!['\n']
    } else {
        Seq::empty()
    }) + wrong_answer_prompts(
        if lines < 2 {
            0
        } else if lines - 1 < WRONG_ANSWERS {
            (lines - 1) as nat
        } else {
            WRONG_ANSWERS as nat
        },
    ) + (if lines >= 5 {
        "Question added!"@ + seq!['\n'] + "Continue adding questions? (y/n)"@ + seq!['\n']
    } else {
        Seq::empty()
    })
}

/// The question that the first five lines of `input` give.
pub open spec fn question_from(input: Seq<Seq<char>>) -> QuestionView {
    QuestionView { text: input[0], correct: input[1], incorrects: input.subrange(2, 5) }
}

/// How a session of adding questions ends.
pub struct Session {
    /// What was written.
    pub written: Seq<char>,
    /// The quiz with the questions that were added.
    pub quiz: Seq<QuestionView>,
    /// The input that was not read.
    pub rest: Seq<Seq<char>>,
    /// Whether the quiz is to be saved: it is not where the input ended
    /// before the session did.
    pub saves: bool,
}

/// The session that starts with `quiz` and reads `input`: round after
/// round, until the answer to "continue" is not yes or the input ends.
pub open spec fn session(quiz: Seq<QuestionView>, input: Seq<Seq<char>>) -> Session
    decreases input.len(),
{
    if input.len() < ROUND_LINES {
        Session {
            written: round_prompts(input.len()),
            quiz,
            rest: Seq::empty(),
            saves: false,
        }
    } else {
        let grown = quiz.push(question_from(input));
        let rest = input.skip(ROUND_LINES as int);
        if says_yes(input[5]) {
            let later = session(grown, rest);
            Session { written: round_prompts(ROUND_LINES as nat) + later.written, ..later }
        } else {
            Session { written: round_prompts(ROUND_LINES as nat), quiz: grown, rest, saves: true }
        }
    }
}

/// The line that tells that the quiz could not be saved.
pub open spec fn save_failure_text(message: Seq<char>) -> Seq<char> {
    "Failed to save quiz to 'quiz.json': "@ + message + seq!['\n']
}

/// What adding questions does, where reading the quiz file gives `stored`,
/// the console has `input` to give, and writing a text to the quiz file
/// fails as `write_failure` tells. Where the quiz cannot be loaded, that is
/// told and nothing else happens. Else the session is held; where it ends
/// with a save, the quiz file then holds the old questions and the new ones,
/// or, where the write fails, the failure is told.
pub open spec fn added(
    stored: Result<Seq<char>, Seq<char>>,
    input: Seq<Seq<char>>,
    output: Seq<char>,
    write_failure: spec_fn(Seq<char>) -> Option<Seq<char>>,
    stored_after: Result<Seq<char>, Seq<char>>,
    input_after: Seq<Seq<char>>,
    output_after: Seq<char>,
) -> bool {
    match loaded(stored) {
        Ok(quiz) => {
            let s = session(quiz, input);
            &&& input_after == s.rest
            &&& if s.saves {
                match write_failure(quiz_text(s.quiz)) {
                    None => stored_after == Ok::<Seq<char>, Seq<char>>(quiz_text(s.quiz))
                        && output_after == output + s.written,
                    Some(message) => output_after == output + s.written + save_failure_text(
                        message,
                    ),
                }
            } else {
                stored_after == stored && output_after == output + s.written
            }
        },
        Err(fault) => {
            &&& input_after == input
            &&& stored_after == stored
            &&& output_after == output + load_failure_text(fault.message())
        },
    }
}

/// Whether `answer` asks for another round.
pub fn wants_more(answer: &str) -> (yes: bool)
    ensures
        yes == says_yes(answer@),
{
    let lower = lowercase(trim(answer));
    same_text(lower.as_str(), "y")
}

/// The word for the wrong answer at `position`.
fn ordinal_word(position: usize) -> (word: &'static str)
    ensures
        word@ == ordinal(position as int),
{
    if position == 0 {
        "first"
    } else if position == 1 {
        "second"
    } else {
        "third"
    }
}

/// Asks for the wrong answers and reads them, as far as the input lasts.
fn read_wrong_answers<I: Interface + ?Sized>(inter: &mut I) -> (incorrects: Vec<String>)
    ensures
        final(inter).stored() == old(inter).stored(),
        forall|t: Seq<char>| #[trigger] final(inter).write_failure(t) == old(inter).write_failure(t),
        incorrects@.len() <= WRONG_ANSWERS,
        incorrects@.len() <= old(inter).input().len(),
        incorrects@.len() < WRONG_ANSWERS ==> incorrects@.len() == old(inter).input().len(),
        forall|i: int|
            0 <= i < incorrects@.len() ==> (#[trigger] incorrects@[i])@ == old(inter).input()[i],
        final(inter).input() == old(inter).input().skip(incorrects@.len() as int),
        final(inter).output() == old(inter).output() + wrong_answer_prompts(
            if incorrects@.len() < WRONG_ANSWERS {
                (incorrects@.len() + 1) as nat
            } else {
                WRONG_ANSWERS as nat
            },
        ),
{
    let mut incorrects: Vec<String> = Vec::with_capacity(WRONG_ANSWERS);
    let mut i: usize = 0;
    assert(inter.input().skip(0) =~= inter.input());
    assert(inter.output() + wrong_answer_prompts(0) =~= inter.output());
    while i < WRONG_ANSWERS
        invariant
            i <= WRONG_ANSWERS,
            incorrects@.len() == i <= old(inter).input().len(),
            inter.stored() == old(inter).stored(),
            forall|t: Seq<char>| #[trigger] inter.write_failure(t) == old(inter).write_failure(t),
            forall|j: int|
                0 <= j < i ==> (#[trigger] incorrects@[j])@ == old(inter).input()[j],
            inter.input() == old(inter).input().skip(i as int),
            inter.output() == old(inter).output() + wrong_answer_prompts(i as nat),
        decreases WRONG_ANSWERS - i,
    {
        let mut line = String::from_str("Enter the ");
        line.append(ordinal_word(i));
        line.append(" incorrect answer:");
        inter.write_stdout_line(line.as_str());
        assert(inter.output() =~= old(inter).output() + wrong_answer_prompts((i + 1) as nat));
        match inter.read_stdin_line() {
            Some(ans) => {
                assert(old(inter).input().skip(i as int)[0] == old(inter).input()[i as int]);
                assert(inter.input() =~= old(inter).input().skip(i + 1));
                incorrects.push(ans);
            },
            None => {
                assert(old(inter).input().skip(i as int).len() == 0);
                return incorrects;
            },
        }
        i += 1;
    }
    incorrects
}

/// Takes one round: asks for a question and its answers and reads them, and
/// asks whether to go on. It gives the question and the answer to that, or
/// `None` where the input ended on the way.
fn read_round<I: Interface + ?Sized>(inter: &mut I) -> (r: Option<(Question, String)>)
    ensures
        final(inter).stored() == old(inter).stored(),
        forall|t: Seq<char>| #[trigger] final(inter).write_failure(t) == old(inter).write_failure(t),
        match r {
            Some((q, answer)) => {
                &&& old(inter).input().len() >= ROUND_LINES
                &&& q@ == question_from(old(inter).input())
                &&& answer@ == old(inter).input()[5]
                &&& final(inter).input() == old(inter).input().skip(ROUND_LINES as int)
                &&& final(inter).output() == old(inter).output() + round_prompts(
                    ROUND_LINES as nat,
                )
            },
            None => {
                &&& old(inter).input().len() < ROUND_LINES
                &&& final(inter).input() == Seq::<Seq<char>>::empty()
                &&& final(inter).output() == old(inter).output() + round_prompts(
                    old(inter).input().len(),
                )
            },
        },
{
    let ghost input = inter.input();
    let ghost output = inter.output();
    proof {
        reveal_with_fuel(wrong_answer_prompts, 4);
    }
    inter.write_stdout_line("Enter a new question:");
    let q_text = match inter.read_stdin_line() {
        Some(line) => line,
        None => {
            assert(inter.output() =~= output + round_prompts(0));
            return None;
        },
    };
    inter.write_stdout_line("Enter the correct answer:");
    let correct = match inter.read_stdin_line() {
        Some(line) => line,
        None => {
            assert(inter.input() =~= Seq::<Seq<char>>::empty());
            assert(inter.output() =~= output + round_prompts(1));
            return None;
        },
    };
    assert(inter.input() =~= input.skip(2));
    let ghost asked = inter.output();
    let incorrects = read_wrong_answers(inter);
    if incorrects.len() < WRONG_ANSWERS {
        assert(inter.input() =~= Seq::<Seq<char>>::empty());
        assert(inter.output() =~= output + round_prompts(input.len()));
        return None;
    }
    assert(inter.input() =~= input.skip(5));
    let new_question = Question { text: q_text, correct, incorrects };
    assert(new_question@.incorrects =~= input.subrange(2, 5)) by {
        assert forall|i: int| 0 <= i < 3 implies new_question.incorrects@[i]@ == input[2 + i] by {
            assert(input.skip(2)[i] == input[2 + i]);
        }
    }
    inter.write_stdout_line("Question added!");
    inter.write_stdout_line("Continue adding questions? (y/n)");
    match inter.read_stdin_line() {
        Some(answer) => {
            assert(input.skip(5)[0] == input[5]);
            assert(inter.input() =~= input.skip(ROUND_LINES as int));
            assert(inter.output() =~= output + round_prompts(ROUND_LINES as nat));
            Some((new_question, answer))
        },
        None => {
            assert(input.skip(5).len() == 0);
            assert(inter.output() =~= output + round_prompts(5));
            None
        },
    }
}

/// Adds questions to the quiz file: loads the quiz, takes round after round
/// from the console, and saves the quiz when the answer to "continue" is
/// not yes. Where the input ends before that, nothing is saved.
pub fn add<I: Interface + ?Sized>(inter: &mut I)
    ensures
        added(
            old(inter).stored(),
            old(inter).input(),
            old(inter).output(),
            |t: Seq<char>| old(inter).write_failure(t),
            final(inter).stored(),
            final(inter).input(),
            final(inter).output(),
        ),
{
    let res = load_quiz(inter);
    let mut quiz = match res {
        Ok(q) => q,
        Err(e) => {
            let mut line = String::from_str("Failed to load quiz.json: ");
            let message = e.message();
            line.append(message.as_str());
            inter.write_stdout_line(line.as_str());
            assert(inter.output() =~= old(inter).output() + load_failure_text(message@));
            return ;
        },
    };
    let ghost whole = session(quiz@, old(inter).input());
    let ghost mut written: Seq<char> = Seq::empty();
    assert(inter.output() =~= old(inter).output() + written);
    assert(written + whole.written =~= whole.written);

    loop
        invariant
            loaded(old(inter).stored()) matches Ok(start) && whole == session(
                start,
                old(inter).input(),
            ),
            inter.stored() == old(inter).stored(),
            forall|t: Seq<char>| #[trigger] inter.write_failure(t) == old(inter).write_failure(t),
            inter.output() == old(inter).output() + written,
            whole.written == written + session(quiz@, inter.input()).written,
            whole.quiz == session(quiz@, inter.input()).quiz,
            whole.rest == session(quiz@, inter.input()).rest,
            whole.saves == session(quiz@, inter.input()).saves,
        decreases inter.input().len(),
    {
        let ghost round_input = inter.input();
        let ghost round_quiz = quiz@;
        match read_round(inter) {
            Some((new_question, ans)) => {
                quiz.questions.push(new_question);
                assert(quiz@ =~= round_quiz.push(question_from(round_input)));
                proof {
                    written = written + round_prompts(ROUND_LINES as nat);
                }
                assert(inter.output() =~= old(inter).output() + written);
                if !wants_more(ans.as_str()) {
                    assert(whole.written =~= written);
                    let res = save_quiz(inter, &quiz);
                    if let Err(e) = res {
                        let mut line = String::from_str("Failed to save quiz to 'quiz.json': ");
                        let message = e.message();
                        line.append(message.as_str());
                        inter.write_stdout_line(line.as_str());
                        assert(inter.output() =~= old(inter).output() + whole.written
                            + save_failure_text(message@));
                    }
                    return ;
                } else {
                    assert(whole.written =~= written + session(quiz@, inter.input()).written);
                }
            },
            None => {
                assert(whole.written =~= written + round_prompts(round_input.len()));
                assert(inter.output() =~= old(inter).output() + whole.written);
                return ;
            },
        }
    }
}

} // verus!
