use sundry::quizzer::add::{add, wants_more};
use sundry::quizzer::command::{run, Commands};
use sundry::quizzer::fake_interface::FakeInterface;
use sundry::quizzer::interface::{Interface, StorageError};
use sundry::json::{find_field, parse, Json};
use sundry::quizzer::quiz::{
    ask, choices_text, fmt_ans_choices, load_quiz, run_quiz, save_quiz, Question, Quiz, QuizError,
};
use sundry::quizzer::quiz_file::{quiz_from_text, read_quiz, write_quiz};

fn question(text: &str, correct: &str, incorrects: &[&str]) -> Question {
    Question {
        text: text.to_string(),
        correct: correct.to_string(),
        incorrects: incorrects.iter().map(|s| s.to_string()).collect(),
    }
}

fn json_text(text: &str) -> serde_json::Value {
    serde_json::Value::String(text.to_string())
}

fn json_question(text: &str, correct: &str, incorrects: &[&str]) -> serde_json::Value {
    let mut fields = serde_json::Map::new();
    fields.insert("text".to_string(), json_text(text));
    fields.insert("correct".to_string(), json_text(correct));
    fields.insert(
        "incorrects".to_string(),
        serde_json::Value::Array(incorrects.iter().map(|s| json_text(s)).collect()),
    );
    serde_json::Value::Object(fields)
}

#[test]
fn add_gets_question_and_answers() {
    let mut inter = FakeInterface::with_stdin(
        "\
        What's my name?\n\
        quizzer\n\
        andy\n\
        sam\n\
        joe\n\
        n\n\
    ",
    );

    add(&mut inter);

    assert_eq!(
        inter.stdout(),
        "\
        Enter a new question:\n\
        Enter the correct answer:\n\
        Enter the first incorrect answer:\n\
        Enter the second incorrect answer:\n\
        Enter the third incorrect answer:\n\
        Question added!\n\
        Continue adding questions? (y/n)\n\
        "
    );
}

#[test]
fn two_questions_stored_in_json() {
    let mut inter = FakeInterface::with_stdin(
        "\
        What's my name?\n\
        quizzer\n\
        andy\n\
        sam\n\
        joe\n\
        y\n\
        What is 2 + 2?\n\
        4\n\
        3\n\
        5\n\
        0\n\
        n\n\
    ",
    );

    add(&mut inter);

    let mut expected = serde_json::Map::new();
    expected.insert(
        "questions".to_string(),
        serde_json::Value::Array(vec![
            json_question("What's my name?", "quizzer", &["andy", "sam", "joe"]),
            json_question("What is 2 + 2?", "4", &["3", "5", "0"]),
        ]),
    );
    assert_eq!(
        serde_json::from_str::<serde_json::Value>(&inter.quiz_file())
            .expect("Failed to deserialize quiz file"),
        serde_json::Value::Object(expected)
    );
}

#[test]
fn add_asks_for_question() {
    let mut inter = FakeInterface::new();

    run(Some(Commands::Add), &mut inter);

    assert_eq!(inter.stdout(), "Enter a new question:\n");
}

#[test]
fn quiz_says_no_questions() {
    let mut inter = FakeInterface::new();

    run(Some(Commands::Quiz), &mut inter);

    assert_eq!(
        inter.stdout(),
        "There are no quiz questions.\nFirst add some with ./quizzer add\n"
    );
}

#[test]
fn no_command_points_to_help() {
    let mut inter = FakeInterface::with_stdin("a line\n");
    run(None, &mut inter);
    assert_eq!(inter.stdout(), "Try ./quizzer --help\n");
    assert_eq!(inter.read_stdin_line(), Some("a line".to_string()));
}

#[test]
fn quiz_file_is_written_as_compact_json() {
    let quiz = Quiz {
        questions: vec![
            question("What's my \"name\"?", "quizzer", &["andy", "sam", "joe"]),
            question("1\n2", "é", &[]),
        ],
    };
    let text = write_quiz(&quiz);
    assert_eq!(
        text,
        "{\"questions\":[{\"text\":\"What's my \\\"name\\\"?\",\"correct\":\"quizzer\",\
         \"incorrects\":[\"andy\",\"sam\",\"joe\"]},{\"text\":\"1\\n2\",\"correct\":\"é\",\
         \"incorrects\":[]}]}"
    );
    assert_eq!(
        write_quiz(&Quiz::default()),
        "{\"questions\":[]}"
    );
}

#[test]
fn quiz_file_reads_back() {
    let quiz = Quiz {
        questions: vec![
            question("What's my \"name\"?", "quizzer", &["andy", "sam", "joe"]),
            question("1\n2", "é", &[]),
        ],
    };
    let text = write_quiz(&quiz);
    let back = quiz_from_text(&text).ok().unwrap();
    assert_eq!(back.len(), 2);
    assert_eq!(back.questions[0].text, "What's my \"name\"?");
    assert_eq!(back.questions[0].correct, "quizzer");
    assert_eq!(back.questions[0].incorrects, vec!["andy", "sam", "joe"]);
    assert_eq!(back.questions[1].text, "1\n2");
    assert_eq!(back.questions[1].correct, "é");
    assert!(back.questions[1].incorrects.is_empty());
}

#[test]
fn quiz_from_text_tells_the_faults_apart() {
    assert!(quiz_from_text("").ok().unwrap().is_empty());
    assert!(matches!(quiz_from_text("{"), Err(QuizError::Syntax(_))));
    assert!(matches!(quiz_from_text(" "), Err(QuizError::Syntax(_))));
    assert!(matches!(quiz_from_text("[]"), Err(QuizError::Shape)));
    assert!(matches!(quiz_from_text("{}"), Err(QuizError::Shape)));
    assert!(matches!(
        quiz_from_text("{\"questions\":{}}"),
        Err(QuizError::Shape)
    ));
    assert!(matches!(
        quiz_from_text("{\"questions\":[{\"text\":\"t\",\"correct\":\"c\"}]}"),
        Err(QuizError::Shape)
    ));
    assert!(matches!(
        quiz_from_text("{\"questions\":[{\"text\":\"t\",\"correct\":1,\"incorrects\":[]}]}"),
        Err(QuizError::Shape)
    ));
    assert!(matches!(
        quiz_from_text("{\"questions\":[{\"text\":\"t\",\"correct\":\"c\",\"incorrects\":[1]}]}"),
        Err(QuizError::Shape)
    ));
    let quiz = quiz_from_text(
        "{\"more\":1,\"questions\":[{\"text\":\"t\",\"extra\":null,\"correct\":\"c\",\"incorrects\":[\"i\"]}]}",
    )
    .ok()
    .unwrap();
    assert_eq!(quiz.len(), 1);
    assert_eq!(quiz.questions[0].incorrects, vec!["i"]);
    assert_eq!(
        QuizError::Shape.message(),
        "the file does not hold a quiz"
    );
}

#[test]
fn parse_gives_plain_data() {
    let json = parse("{\"b\":[true,null,1.5,\"x\"],\"a\":{}}").ok().unwrap();
    let fields = match &json {
        Json::Object(fields) => fields,
        _ => panic!("an object"),
    };
    assert_eq!(fields.len(), 2);
    assert!(matches!(find_field(fields, "a"), Some(Json::Object(f)) if f.is_empty()));
    assert!(find_field(fields, "c").is_none());
    match find_field(fields, "b") {
        Some(Json::Array(items)) => {
            assert_eq!(items.len(), 4);
            assert!(matches!(&items[0], Json::Bool(true)));
            assert!(matches!(&items[1], Json::Null));
            assert!(matches!(&items[2], Json::Number(n) if n == "1.5"));
            assert!(matches!(&items[3], Json::Str(s) if s == "x"));
        }
        _ => panic!("an array"),
    }
    assert!(read_quiz(&json).is_none());
    assert!(parse("not json").is_err());
}

#[test]
fn quiz_counts_and_appends() {
    let mut quiz = Quiz::default();
    assert!(quiz.is_empty());
    assert_eq!(quiz.len(), 0);
    assert!(quiz
        .append_questions(vec![question("a", "b", &["c"]), question("d", "e", &[])])
        .is_ok());
    assert!(quiz.append_questions(vec![question("f", "g", &[])]).is_ok());
    assert!(!quiz.is_empty());
    assert_eq!(quiz.len(), 3);
    assert_eq!(quiz.questions[0].text, "a");
    assert_eq!(quiz.questions[2].text, "f");
}

#[test]
fn choices_put_the_right_answer_in_its_place() {
    let wrong = vec!["andy".to_string(), "sam".to_string(), "joe".to_string()];
    assert_eq!(
        choices_text("quizzer", &wrong, 0),
        "\n -> quizzer\n -> andy\n -> sam\n -> joe"
    );
    assert_eq!(
        choices_text("quizzer", &wrong, 1),
        "\n -> andy\n -> quizzer\n -> sam\n -> joe"
    );
    assert_eq!(
        choices_text("quizzer", &wrong, 2),
        "\n -> andy\n -> sam\n -> quizzer\n -> joe"
    );
    assert_eq!(
        choices_text("quizzer", &wrong, 3),
        "\n -> andy\n -> sam\n -> joe"
    );
    assert_eq!(choices_text("quizzer", &vec![], 0), "");
    for _ in 0..50 {
        let text = fmt_ans_choices("quizzer", &wrong);
        assert!(
            text == choices_text("quizzer", &wrong, 0)
                || text == choices_text("quizzer", &wrong, 1)
                || text == choices_text("quizzer", &wrong, 2)
        );
    }
}

#[test]
fn quiz_asks_and_scores() {
    let mut inter = FakeInterface::with_stdin("quizzer\nwrong\n");
    let quiz = Quiz {
        questions: vec![
            question("What's my name?", "quizzer", &[]),
            question("What is 2 + 2?", "4", &[]),
        ],
    };
    assert!(save_quiz(&mut inter, &quiz).is_ok());
    assert_eq!(load_quiz(&mut inter).ok().unwrap().len(), 2);

    run_quiz(&mut inter);

    assert_eq!(
        inter.stdout(),
        "What's my name?\n>>> Correct!\n\nWhat is 2 + 2?\n>>> Wrong answer.\n\n\
         You scored 1 out of 2 points.\n"
    );
}

#[test]
fn quiz_stops_where_the_input_ends() {
    let mut inter = FakeInterface::with_stdin("quizzer\n");
    let quiz = Quiz {
        questions: vec![
            question("What's my name?", "quizzer", &[]),
            question("What is 2 + 2?", "4", &[]),
        ],
    };
    assert!(save_quiz(&mut inter, &quiz).is_ok());

    run_quiz(&mut inter);

    assert_eq!(
        inter.stdout(),
        "What's my name?\n>>> Correct!\n\nWhat is 2 + 2?\n>>> "
    );
}

#[test]
fn quiz_tells_a_file_that_is_no_quiz() {
    let mut inter = FakeInterface::new();
    assert!(inter.write_quiz_json("[1]").is_ok());
    run_quiz(&mut inter);
    assert_eq!(
        inter.stdout(),
        "Failed to load quiz.json: the file does not hold a quiz\n"
    );

    let mut inter = FakeInterface::new();
    assert!(inter.write_quiz_json("[1]").is_ok());
    add(&mut inter);
    assert_eq!(
        inter.stdout(),
        "Failed to load quiz.json: the file does not hold a quiz\n"
    );
    assert_eq!(inter.quiz_file(), "[1]");
}

#[test]
fn ask_tells_a_right_answer_from_a_wrong_one() {
    let q = question("Q", "yes", &["no"]);
    let mut inter = FakeInterface::with_stdin("yes\nYes\n");
    assert_eq!(ask(&mut inter, &q), Some(true));
    assert_eq!(ask(&mut inter, &q), Some(false));
    assert_eq!(ask(&mut inter, &q), None);
}

#[test]
fn add_appends_to_the_quiz_that_is_there() {
    let mut inter = FakeInterface::with_stdin("q2\nc2\na\nb\nc\n N \n");
    let quiz = Quiz {
        questions: vec![question("q1", "c1", &["x"])],
    };
    assert!(save_quiz(&mut inter, &quiz).is_ok());

    add(&mut inter);

    assert_eq!(
        inter.quiz_file(),
        "{\"questions\":[{\"text\":\"q1\",\"correct\":\"c1\",\"incorrects\":[\"x\"]},\
         {\"text\":\"q2\",\"correct\":\"c2\",\"incorrects\":[\"a\",\"b\",\"c\"]}]}"
    );
}

#[test]
fn add_saves_nothing_where_the_input_ends_early() {
    for (input, prompts) in [
        ("", 1),
        ("q\n", 2),
        ("q\nc\n", 3),
        ("q\nc\n1\n", 4),
        ("q\nc\n1\n2\n", 5),
        ("q\nc\n1\n2\n3\n", 7),
        ("q\nc\n1\n2\n3\ny\n", 8),
        ("q\nc\n1\n2\n3\n Y\nq\nc\n1\n2\n3\n", 14),
    ] {
        let mut inter = FakeInterface::with_stdin(input);
        add(&mut inter);
        assert_eq!(inter.stdout().lines().count(), prompts, "input {input:?}");
        assert!(inter.read_quiz_json().ok().unwrap().is_empty());
    }
}

#[test]
fn yes_in_either_case_and_with_space_around() {
    assert!(wants_more("y"));
    assert!(wants_more("Y"));
    assert!(wants_more("  y\t"));
    assert!(!wants_more("yes"));
    assert!(!wants_more("n"));
    assert!(!wants_more(""));
}

#[test]
fn fake_interface_keeps_what_it_is_given() {
    let mut inter = FakeInterface::with_stdin("one\r\ntwo\n\nfour");
    assert_eq!(inter.read_stdin_line(), Some("one".to_string()));
    assert_eq!(inter.read_stdin_line(), Some("two".to_string()));
    assert_eq!(inter.read_stdin_line(), Some("".to_string()));
    assert_eq!(inter.read_stdin_line(), Some("four".to_string()));
    assert_eq!(inter.read_stdin_line(), None);
    assert_eq!(inter.read_stdin_line(), None);
    inter.write_stdout("a");
    inter.write_stdout_line("b");
    inter.write_stdout("c");
    assert_eq!(inter.stdout(), "ab\nc");
    assert_eq!(inter.read_quiz_json().ok().unwrap(), "");
    assert!(inter.write_quiz_json("text").is_ok());
    assert_eq!(inter.read_quiz_json().ok().unwrap(), "text");
    assert_eq!(inter.quiz_file(), "text");
}

/// A console in memory whose quiz file cannot be read, or cannot be written.
struct BrokenStorage {
    lines: Vec<String>,
    written: String,
    reads: bool,
}

impl Interface for BrokenStorage {
    fn read_stdin_line(&mut self) -> Option<String> {
        if self.lines.is_empty() {
            None
        } else {
            Some(self.lines.remove(0))
        }
    }

    fn write_stdout(&mut self, text: &str) {
        self.written.push_str(text);
    }

    fn write_stdout_line(&mut self, text: &str) {
        self.written.push_str(text);
        self.written.push('\n');
    }

    fn read_quiz_json(&mut self) -> Result<String, StorageError> {
        if self.reads {
            Ok(String::new())
        } else {
            Err(StorageError {
                message: "no such file".to_string(),
            })
        }
    }

    fn write_quiz_json(&mut self, _text: &str) -> Result<(), StorageError> {
        Err(StorageError {
            message: "disk full".to_string(),
        })
    }
}

#[test]
fn a_quiz_file_that_cannot_be_read_is_told() {
    let mut inter = BrokenStorage {
        lines: vec!["q".to_string()],
        written: String::new(),
        reads: false,
    };
    assert!(matches!(
        load_quiz(&mut inter),
        Err(QuizError::Storage(e)) if e.message == "no such file"
    ));
    add(&mut inter);
    assert_eq!(inter.written, "Failed to load quiz.json: no such file\n");
    inter.written.clear();
    run_quiz(&mut inter);
    assert_eq!(inter.written, "Failed to load quiz.json: no such file\n");
    assert_eq!(inter.lines.len(), 1);
}

#[test]
fn a_quiz_file_that_cannot_be_written_is_told() {
    let mut inter = BrokenStorage {
        lines: "q c 1 2 3 n".split(' ').map(|s| s.to_string()).collect(),
        written: String::new(),
        reads: true,
    };
    assert!(matches!(
        save_quiz(&mut inter, &Quiz::default()),
        Err(QuizError::Storage(e)) if e.message == "disk full"
    ));
    add(&mut inter);
    assert_eq!(
        inter.written,
        "Enter a new question:\n\
         Enter the correct answer:\n\
         Enter the first incorrect answer:\n\
         Enter the second incorrect answer:\n\
         Enter the third incorrect answer:\n\
         Question added!\n\
         Continue adding questions? (y/n)\n\
         Failed to save quiz to 'quiz.json': disk full\n"
    );
    assert!(inter.lines.is_empty());
}

#[test]
fn a_dyn_interface_will_do() {
    let mut fake = FakeInterface::with_stdin("");
    let inter: &mut dyn Interface = &mut fake;
    run(None, inter);
    run_quiz(inter);
    add(inter);
    assert_eq!(
        fake.stdout(),
        "Try ./quizzer --help\n\
         There are no quiz questions.\nFirst add some with ./quizzer add\n\
         Enter a new question:\n"
    );
}

#[test]
fn a_quiz_file_that_is_not_json_is_told_with_the_parsers_words() {
    let words = serde_json::from_str::<serde_json::Value>("{\"questions\":")
        .unwrap_err()
        .to_string();
    assert!(matches!(
        quiz_from_text("{\"questions\":"),
        Err(QuizError::Syntax(m)) if m == words
    ));
    assert_eq!(parse("{\"questions\":").err().unwrap(), words);

    let mut inter = FakeInterface::with_stdin("q\n");
    assert!(inter.write_quiz_json("{\"questions\":").is_ok());
    run_quiz(&mut inter);
    assert_eq!(
        inter.stdout(),
        format!("Failed to load quiz.json: {words}\n")
    );

    let mut inter = FakeInterface::with_stdin("q\n");
    assert!(inter.write_quiz_json("{\"questions\":").is_ok());
    add(&mut inter);
    assert_eq!(
        inter.stdout(),
        format!("Failed to load quiz.json: {words}\n")
    );
    assert_eq!(inter.quiz_file(), "{\"questions\":");
    assert_eq!(inter.read_stdin_line(), Some("q".to_string()));
}

#[test]
fn rounds_are_saved_once_after_the_old_questions() {
    let mut inter = FakeInterface::with_stdin(
        "q2\nc2\na\nb\nc\ny\nq3\nc3\nd\ne\nf\n Y \nq4\nc4\ng\nh\ni\nno\nleft over\n",
    );
    let quiz = Quiz {
        questions: vec![question("q1", "c1", &["x", "y", "z"])],
    };
    assert!(save_quiz(&mut inter, &quiz).is_ok());

    add(&mut inter);

    let back = quiz_from_text(&inter.quiz_file()).ok().unwrap();
    assert_eq!(back.len(), 4);
    for (i, q) in back.questions.iter().enumerate() {
        assert_eq!(q.text, format!("q{}", i + 1));
        assert_eq!(q.correct, format!("c{}", i + 1));
        assert_eq!(q.incorrects.len(), 3);
    }
    assert_eq!(back.questions[3].incorrects, vec!["g", "h", "i"]);
    assert_eq!(inter.stdout().lines().count(), 21);
    assert!(!inter.stdout().contains("Failed"));
    assert_eq!(inter.read_stdin_line(), Some("left over".to_string()));
}
