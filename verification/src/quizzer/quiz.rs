use crate::chance::random_below;
use crate::decimal::{decimal, decimal_string};
use crate::quizzer::interface::{Interface, StorageError};
use crate::quizzer::quiz_file::{quiz_from_text, quiz_of_text, quiz_text, write_quiz};
use crate::text::same_text;
use vstd::prelude::*;
use vstd::string::StringExecFns;

verus! {


/// A question with its right answer and some wrong ones.
#[derive(Clone)]
pub struct Question {
    pub text: String,
    pub correct: String,
    pub incorrects: Vec<String>,
}

/// A question as plain text.
pub struct QuestionView {
    pub text: Seq<char>,
    pub correct: Seq<char>,
    pub incorrects: Seq<Seq<char>>,
}

/// The questions that the program asks.
pub struct Quiz {
    pub questions: Vec<Question>,
}

/// Why a quiz could not be loaded or saved.
pub enum QuizError {
    /// The quiz file could not be read or written.
    Storage(StorageError),
    /// The text is not JSON; the message is that of the JSON library.
    Syntax(String),
    /// The text is JSON, but not a quiz.
    Shape,
}

/// A `QuizError` as plain text.
pub enum QuizFault {
    /// The quiz file could not be read or written; the message is the
    /// interface's.
    Storage(Seq<char>),
    /// The text is not JSON; the message is the parser's.
    Syntax(Seq<char>),
    /// The text is JSON, but not a quiz.
    Shape,
}

impl QuizFault {
    /// What the fault says to a reader.
    pub open spec fn message(self) -> Seq<char> {
        match self {
            QuizFault::Storage(message) => message,
            QuizFault::Syntax(message) => message,
            QuizFault::Shape => "the file does not hold a quiz"@,
        }
    }
}

impl View for QuizError {
    type V = QuizFault;

    open spec fn view(&self) -> QuizFault {
        match *self {
            QuizError::Storage(e) => QuizFault::Storage(e.message@),
            QuizError::Syntax(m) => QuizFault::Syntax(m@),
            QuizError::Shape => QuizFault::Shape,
        }
    }
}

impl QuizError {
    /// What the error says to a reader.
    pub fn message(&self) -> (text: String)
        ensures
            text@ == self@.message(),
    {
        match self {
            QuizError::Storage(e) => e.message.clone(),
            QuizError::Syntax(m) => m.clone(),
            QuizError::Shape => String::from_str("the file does not hold a quiz"),
        }
    }
}

/// The texts of some strings.
pub open spec fn texts(strings: Seq<String>) -> Seq<Seq<char>> {
    Seq::new(strings.len(), |i: int| strings[i]@)
}

impl View for Question {
    type V = QuestionView;

    open spec fn view(&self) -> QuestionView {
        QuestionView {
            text: self.text@,
            correct: self.correct@,
            incorrects: texts(self.incorrects@),
        }
    }
}

/// Some questions as plain text.
pub open spec fn views(questions: Seq<Question>) -> Seq<QuestionView> {
    Seq::new(questions.len(), |i: int| questions[i]@)
}

impl View for Quiz {
    type V = Seq<QuestionView>;

    open spec fn view(&self) -> Seq<QuestionView> {
        views(self.questions@)
    }
}

impl Default for Quiz {
    /// The quiz without questions.
    fn default() -> (quiz: Self)
        ensures
            quiz@ == Seq::<QuestionView>::empty(),
    {
        let quiz = Quiz { questions: Vec::new() };
        assert(quiz@ =~= Seq::<QuestionView>::empty());
        quiz
    }
}

impl Quiz {
    /// Returns the number of questions in the quiz.
    pub fn len(&self) -> (n: usize)
        ensures
            n == self@.len(),
    {
        self.questions.len()
    }

    /// Adds new question(s) to the quiz's questions bank, after those that
    /// are there. It never fails.
    pub fn append_questions(&mut self, new_questions: Vec<Question>) -> (r: Result<(), QuizError>)
        ensures
            r.is_ok(),
            final(self)@ == old(self)@ + views(new_questions@),
    {
        let mut added = new_questions;
        self.questions.append(&mut added);
        assert(self@ =~= old(self)@ + views(new_questions@));
        Ok(())
    }

    /// Returns true if the quiz has no questions.
    pub fn is_empty(&self) -> (empty: bool)
        ensures
            empty == (self@.len() == 0),
    {
        self.questions.is_empty()
    }
}

/// What loading the quiz gives, where reading the quiz file gives `stored`:
/// the quiz that the text holds, or why there is none.
pub open spec fn loaded(stored: Result<Seq<char>, Seq<char>>) -> Result<
    Seq<QuestionView>,
    QuizFault,
> {
    match stored {
        Ok(text) => quiz_of_text(text),
        Err(message) => Err(QuizFault::Storage(message)),
    }
}

/// Loads the quiz if there is one, otherwise returns an empty quiz.
pub fn load_quiz<I: Interface + ?Sized>(inter: &mut I) -> (r: Result<Quiz, QuizError>)
    ensures
        final(inter).input() == old(inter).input(),
        final(inter).output() == old(inter).output(),
        final(inter).stored() == old(inter).stored(),
        forall|t: Seq<char>| #[trigger] final(inter).write_failure(t) == old(inter).write_failure(t),
        match loaded(old(inter).stored()) {
            Ok(quiz) => r matches Ok(q) && q@ == quiz,
            Err(fault) => r matches Err(e) && e@ == fault,
        },
{
    match inter.read_quiz_json() {
        Ok(contents) => quiz_from_text(contents.as_str()),
        Err(e) => Err(QuizError::Storage(e)),
    }
}

/// Writes the quiz to the quiz file. It fails where the interface's write
/// does, and with its message.
pub fn save_quiz<I: Interface + ?Sized>(inter: &mut I, questions: &Quiz) -> (r: Result<(), QuizError>)
    ensures
        final(inter).input() == old(inter).input(),
        final(inter).output() == old(inter).output(),
        match old(inter).write_failure(quiz_text(questions@)) {
            None => r.is_ok() && final(inter).stored() == Ok::<Seq<char>, Seq<char>>(
                quiz_text(questions@),
            ),
            Some(message) => r matches Err(e) && e@ == QuizFault::Storage(message),
        },
{
    let json = write_quiz(questions);
    match inter.write_quiz_json(json.as_str()) {
        Ok(()) => Ok(()),
        Err(e) => Err(QuizError::Storage(e)),
    }
}

/// How many places the right answer can take among the wrong ones.
pub const CHOICE_PLACES: usize = 3;

/// The first `n` wrong answers as a list of choices, one to a line, with
/// the right answer put in before the wrong answer at position `show`.
pub open spec fn choices(
    correct: Seq<char>,
    incorrects: Seq<Seq<char>>,
    show: int,
    n: nat,
) -> Seq<char>
    decreases n,
{
    if n == 0 {
        Seq::empty()
    } else {
        choices(correct, incorrects, show, (n - 1) as nat) + (if n - 1 == show {
            "\n -> "@ + correct
        } else {
            Seq::empty()
        }) + "\n -> "@ + incorrects[n - 1]
    }
}

/// What is written to ask `q`: the question, the choices and the prompt.
pub open spec fn prompt_text(q: QuestionView, show: int) -> Seq<char> {
    q.text + choices(q.correct, q.incorrects, show, q.incorrects.len()) + seq!['\n'] + ">>> "@
}

/// What is written for `q` where `answer` is given to it.
pub open spec fn round_text(q: QuestionView, show: int, answer: Seq<char>) -> Seq<char> {
    prompt_text(q, show) + (if answer == q.correct {
        "Correct!\n"@
    } else {
        "Wrong answer.\n"@
    }) + seq!['\n']
}

/// What is written for the first `n` questions of `quiz`, where the right
/// answers are put at `draws` and the lines of `answers` are given.
pub open spec fn rounds_text(
    quiz: Seq<QuestionView>,
    draws: Seq<int>,
    answers: Seq<Seq<char>>,
    n: nat,
) -> Seq<char>
    decreases n,
{
    if n == 0 {
        Seq::empty()
    } else {
        rounds_text(quiz, draws, answers, (n - 1) as nat) + round_text(
            quiz[n - 1],
            draws[n - 1],
            answers[n - 1],
        )
    }
}

/// How many of the first `n` questions of `quiz` the lines of `answers`
/// answer rightly.
pub open spec fn score_of(quiz: Seq<QuestionView>, answers: Seq<Seq<char>>, n: nat) -> nat
    decreases n,
{
    if n == 0 {
        0
    } else {
        score_of(quiz, answers, (n - 1) as nat) + if answers[n - 1] == quiz[n - 1].correct {
            1nat
        } else {
            0nat
        }
    }
}

/// The line that tells the score.
pub open spec fn score_text(score: nat, total: nat) -> Seq<char> {
    "You scored "@ + decimal(score) + " out of "@ + decimal(total) + " points."@ + seq!['\n']
}

/// The line that tells that the quiz could not be loaded.
pub open spec fn load_failure_text(message: Seq<char>) -> Seq<char> {
    "Failed to load quiz.json: "@ + message + seq!['\n']
}

/// The lines that tell that there is nothing to ask.
pub open spec fn no_questions_text() -> Seq<char> {
    "There are no quiz questions.\nFirst add some with ./quizzer add"@ + seq!['\n']
}

/// The draws are places for the right answer.
pub open spec fn are_places(draws: Seq<int>) -> bool {
    forall|i: int| 0 <= i < draws.len() ==> 0 <= #[trigger] draws[i] < CHOICE_PLACES
}

/// The answer choices as a list, the right answer before the wrong answer at
/// position `show_correct`; it is left out where there is no such wrong
/// answer.
pub fn choices_text(correct: &str, incorrects: &Vec<String>, show_correct: usize) -> (output:
    String)
    ensures
        output@ == choices(correct@, texts(incorrects@), show_correct as int, incorrects@.len()),
{
    let mut output = String::new();
    let mut idx: usize = 0;
    while idx < incorrects.len()
        invariant
            idx <= incorrects@.len(),
            output@ == choices(correct@, texts(incorrects@), show_correct as int, idx as nat),
        decreases incorrects@.len() - idx,
    {
        if idx == show_correct {
            output.append("\n -> ");
            output.append(correct);
        }
        output.append("\n -> ");
        output.append(incorrects[idx].as_str());
        proof {
            assert(output@ =~= choices(
                correct@,
                texts(incorrects@),
                show_correct as int,
                (idx + 1) as nat,
            ));
        }
        idx += 1;
    }
    output
}

/// Displays the answers choices in a random order: the place of the right
/// answer is drawn.
pub fn fmt_ans_choices(correct: &str, incorrects: &Vec<String>) -> (output: String)
    ensures
        exists|show: int|
            0 <= show < CHOICE_PLACES && output@ == #[trigger] choices(
                correct@,
                texts(incorrects@),
                show,
                incorrects@.len(),
            ),
{
    let show_correct = random_below(CHOICE_PLACES);
    choices_text(correct, incorrects, show_correct)
}

/// Whether asking `q`, with the right answer at place `show`, leads from
/// the one input and output to the other, with `right` as the result:
/// whether the answer was right, or `None` where the input had ended.
pub open spec fn asked(
    input: Seq<Seq<char>>,
    output: Seq<char>,
    input_after: Seq<Seq<char>>,
    output_after: Seq<char>,
    q: QuestionView,
    show: int,
    right: Option<bool>,
) -> bool {
    if input.len() == 0 {
        right.is_none() && input_after == input && output_after == output + prompt_text(q, show)
    } else {
        right == Some(input[0] == q.correct) && input_after == input.drop_first() && output_after
            == output + round_text(q, show, input[0])
    }
}

/// Asks `q` and says whether the answer is right.
pub fn ask<I: Interface + ?Sized>(inter: &mut I, q: &Question) -> (right: Option<bool>)
    ensures
        final(inter).stored() == old(inter).stored(),
        forall|t: Seq<char>| #[trigger] final(inter).write_failure(t) == old(inter).write_failure(t),
        exists|show: int|
            0 <= show < CHOICE_PLACES && #[trigger] asked(
                old(inter).input(),
                old(inter).output(),
                final(inter).input(),
                final(inter).output(),
                q@,
                show,
                right,
            ),
{
    inter.write_stdout(q.text.as_str());
    let show_correct = random_below(CHOICE_PLACES);
    let list = choices_text(q.correct.as_str(), &q.incorrects, show_correct);
    inter.write_stdout_line(list.as_str());
    inter.write_stdout(">>> ");
    assert(inter.output() =~= old(inter).output() + prompt_text(q@, show_correct as int));
    let right = match inter.read_stdin_line() {
        Some(ans) => {
            let right = same_text(ans.as_str(), q.correct.as_str());
            if right {
                inter.write_stdout_line("Correct!\n");
            } else {
                inter.write_stdout_line("Wrong answer.\n");
            }
            assert(inter.output() =~= old(inter).output() + round_text(
                q@,
                show_correct as int,
                old(inter).input()[0],
            ));
            Some(right)
        },
        None => None,
    };
    assert(asked(
        old(inter).input(),
        old(inter).output(),
        inter.input(),
        inter.output(),
        q@,
        show_correct as int,
        right,
    ));
    right
}

/// What running the quiz does to the console, where reading the quiz file
/// gives `stored`: it tells why the quiz could not be loaded, or that there
/// is nothing to ask, or it asks the questions.
pub open spec fn quiz_run(
    stored: Result<Seq<char>, Seq<char>>,
    input: Seq<Seq<char>>,
    output: Seq<char>,
    input_after: Seq<Seq<char>>,
    output_after: Seq<char>,
) -> bool {
    match loaded(stored) {
        Ok(quiz) => if quiz.len() == 0 {
            input_after == input && output_after == output + no_questions_text()
        } else {
            exists|draws: Seq<int>|
                draws.len() == quiz.len() && are_places(draws) && #[trigger] quiz_asked(
                    quiz,
                    draws,
                    input,
                    output,
                    input_after,
                    output_after,
                )
        },
        Err(fault) => input_after == input && output_after == output + load_failure_text(
            fault.message(),
        ),
    }
}

/// Whether asking all of `quiz`, with the right answers at `draws`, leads
/// from the one input and output to the other. Where the input lasts, each
/// question takes a line of it and the score is told at the end; where it
/// ends early, the quiz stops at the question that gets no answer.
pub open spec fn quiz_asked(
    quiz: Seq<QuestionView>,
    draws: Seq<int>,
    input: Seq<Seq<char>>,
    output: Seq<char>,
    input_after: Seq<Seq<char>>,
    output_after: Seq<char>,
) -> bool {
    if input.len() >= quiz.len() {
        input_after == input.skip(quiz.len() as int) && output_after == output + rounds_text(
            quiz,
            draws,
            input,
            quiz.len(),
        ) + score_text(score_of(quiz, input, quiz.len()), quiz.len())
    } else {
        input_after == Seq::<Seq<char>>::empty() && output_after == output + rounds_text(
            quiz,
            draws,
            input,
            input.len(),
        ) + prompt_text(quiz[input.len() as int], draws[input.len() as int])
    }
}

/// Asks the questions of the quiz file one by one and tells the score.
pub fn run_quiz<I: Interface + ?Sized>(inter: &mut I)
    ensures
        final(inter).stored() == old(inter).stored(),
        forall|t: Seq<char>| #[trigger] final(inter).write_failure(t) == old(inter).write_failure(t),
        quiz_run(
            old(inter).stored(),
            old(inter).input(),
            old(inter).output(),
            final(inter).input(),
            final(inter).output(),
        ),
{
    let load_res = load_quiz(inter);
    let quiz = match load_res {
        Ok(q) => q,
        Err(e) => {
            let mut line = String::from_str("Failed to load quiz.json: ");
            let message = e.message();
            line.append(message.as_str());
            inter.write_stdout_line(line.as_str());
            assert(inter.output() =~= old(inter).output() + load_failure_text(message@));
            return ;
        },
    };

    if quiz.is_empty() {
        inter.write_stdout_line("There are no quiz questions.\nFirst add some with ./quizzer add");
        assert(inter.output() =~= old(inter).output() + no_questions_text());
        return ;
    }
    let ghost draws: Seq<int> = Seq::new(quiz@.len(), |i: int| 0int);
    let mut score: usize = 0;
    let mut i: usize = 0;
    while i < quiz.questions.len()
        invariant
            i <= quiz@.len() == quiz.questions@.len() == draws.len(),
            i <= old(inter).input().len(),
            are_places(draws),
            score == score_of(quiz@, old(inter).input(), i as nat),
            score <= i,
            inter.stored() == old(inter).stored(),
            forall|t: Seq<char>| #[trigger] inter.write_failure(t) == old(inter).write_failure(t),
            inter.input() == old(inter).input().skip(i as int),
            inter.output() == old(inter).output() + rounds_text(
                quiz@,
                draws,
                old(inter).input(),
                i as nat,
            ),
            quiz@.len() > 0,
            loaded(old(inter).stored()) == Ok::<Seq<QuestionView>, QuizFault>(quiz@),
        decreases quiz@.len() - i,
    {
        let ghost before_input = inter.input();
        let ghost before_output = inter.output();
        let right = ask(inter, &quiz.questions[i]);
        proof {
            assert(quiz@[i as int] == quiz.questions@[i as int]@);
            let show = choose|show: int|
                0 <= show < CHOICE_PLACES && #[trigger] asked(
                    before_input,
                    before_output,
                    inter.input(),
                    inter.output(),
                    quiz@[i as int],
                    show,
                    right,
                );
            let earlier = draws;
            draws = draws.update(i as int, show);
            lemma_rounds_depend_on_prefix(quiz@, earlier, draws, old(inter).input(), i as nat);
        }
        match right {
            Some(right) => {
                if right {
                    score += 1;
                }
                assert(inter.input() =~= old(inter).input().skip(i + 1));
                assert(old(inter).input().skip(i as int)[0] == old(inter).input()[i as int]);
            },
            None => {
                assert(old(inter).input().skip(i as int).len() == 0);
                assert(inter.input() =~= Seq::<Seq<char>>::empty());
                assert(quiz_asked(
                    quiz@,
                    draws,
                    old(inter).input(),
                    old(inter).output(),
                    inter.input(),
                    inter.output(),
                ));
                return ;
            },
        }
        i += 1;
    }

    let mut line = String::from_str("You scored ");
    line.append(decimal_string(score as u64).as_str());
    line.append(" out of ");
    line.append(decimal_string(quiz.len() as u64).as_str());
    line.append(" points.");
    inter.write_stdout_line(line.as_str());
    assert(inter.output() =~= old(inter).output() + rounds_text(
        quiz@,
        draws,
        old(inter).input(),
        quiz@.len(),
    ) + score_text(score_of(quiz@, old(inter).input(), quiz@.len()), quiz@.len()));
    assert(quiz_asked(
        quiz@,
        draws,
        old(inter).input(),
        old(inter).output(),
        inter.input(),
        inter.output(),
    ));
}

/// The text of the first `n` rounds depends on the first `n` draws only.
proof fn lemma_rounds_depend_on_prefix(
    quiz: Seq<QuestionView>,
    a: Seq<int>,
    b: Seq<int>,
    answers: Seq<Seq<char>>,
    n: nat,
)
    requires
        n <= a.len() == b.len(),
        forall|i: int| 0 <= i < n ==> a[i] == b[i],
    ensures
        rounds_text(quiz, a, answers, n) == rounds_text(quiz, b, answers, n),
    decreases n,
{
    if n > 0 {
        lemma_rounds_depend_on_prefix(quiz, a, b, answers, (n - 1) as nat);
    }
}

} // verus!
