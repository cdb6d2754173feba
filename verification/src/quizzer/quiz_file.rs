use crate::json::{
    field_of, find_field, item_views, parse, parsed, quote, quoted, Json, JsonView,
};
use crate::quizzer::quiz::{texts, Question, QuestionView, Quiz, QuizError, QuizFault};
use vstd::prelude::*;
use vstd::string::StringExecFns;

verus! {

/// `parts` with a comma between each two.
pub open spec fn joined(parts: Seq<Seq<char>>) -> Seq<char>
    decreases parts.len(),
{
    if parts.len() == 0 {
        Seq::empty()
    } else if parts.len() == 1 {
        parts[0]
    } else {
        joined(parts.drop_last()) + ","@ + parts.last()
    }
}

/// A JSON array of `parts`, each of which is JSON already.
pub open spec fn list_text(parts: Seq<Seq<char>>) -> Seq<char> {
    "["@ + joined(parts) + "]"@
}

/// Each text as a JSON string.
pub open spec fn all_quoted(items: Seq<Seq<char>>) -> Seq<Seq<char>> {
    Seq::new(items.len(), |i: int| quoted(items[i]))
}

/// A question in the quiz file: an object with its three fields.
pub open spec fn question_text(q: QuestionView) -> Seq<char> {
    "{\"text\":"@ + quoted(q.text) + ",\"correct\":"@ + quoted(q.correct) + ",\"incorrects\":"@
        + list_text(all_quoted(q.incorrects)) + "}"@
}

/// The questions in the quiz file, one after the other.
pub open spec fn all_question_texts(quiz: Seq<QuestionView>) -> Seq<Seq<char>> {
    Seq::new(quiz.len(), |i: int| question_text(quiz[i]))
}

/// The quiz file of a quiz: an object whose one field holds the questions.
pub open spec fn quiz_text(quiz: Seq<QuestionView>) -> Seq<char> {
    "{\"questions\":"@ + list_text(all_question_texts(quiz)) + "}"@
}

/// Writes a JSON array of parts that are JSON already.
fn write_list(parts: &Vec<String>) -> (text: String)
    ensures
        text@ == list_text(texts(parts@)),
{
    let mut text = String::from_str("[");
    let mut i: usize = 0;
    while i < parts.len()
        invariant
            i <= parts@.len(),
            text@ == "["@ + joined(texts(parts@).take(i as int)),
        decreases parts@.len() - i,
    {
        if i > 0 {
            text.append(",");
        }
        text.append(parts[i].as_str());
        proof {
            let before = texts(parts@).take(i as int);
            let now = texts(parts@).take(i + 1);
            assert(now.drop_last() =~= before);
            assert(now.last() == parts@[i as int]@);
            assert(text@ =~= "["@ + joined(now));
        }
        i += 1;
    }
    proof {
        assert(texts(parts@).take(i as int) =~= texts(parts@));
    }
    text.append("]");
    text
}

/// Writes each text as a JSON string.
fn quote_all(items: &Vec<String>) -> (parts: Vec<String>)
    ensures
        texts(parts@) == all_quoted(texts(items@)),
{
    let mut parts: Vec<String> = Vec::new();
    let mut i: usize = 0;
    while i < items.len()
        invariant
            i <= items@.len(),
            parts@.len() == i,
            forall|j: int| 0 <= j < i ==> (#[trigger] parts@[j])@ == quoted(items@[j]@),
        decreases items@.len() - i,
    {
        parts.push(quote(items[i].as_str()));
        i += 1;
    }
    assert(texts(parts@) =~= all_quoted(texts(items@)));
    parts
}

/// Writes a question as it stands in the quiz file.
fn write_question(q: &Question) -> (text: String)
    ensures
        text@ == question_text(q@),
{
    let q_text = quote(q.text.as_str());
    let correct = quote(q.correct.as_str());
    let incorrects = quote_all(&q.incorrects);
    let list = write_list(&incorrects);
    let mut text = String::from_str("{\"text\":");
    text.append(q_text.as_str());
    text.append(",\"correct\":");
    text.append(correct.as_str());
    text.append(",\"incorrects\":");
    text.append(list.as_str());
    text.append("}");
    text
}

/// Writes `quiz` as the text of a quiz file.
pub fn write_quiz(quiz: &Quiz) -> (text: String)
    ensures
        text@ == quiz_text(quiz@),
{
    let mut parts: Vec<String> = Vec::new();
    let mut i: usize = 0;
    while i < quiz.questions.len()
        invariant
            i <= quiz.questions@.len(),
            parts@.len() == i,
            forall|j: int| 0 <= j < i ==> (#[trigger] parts@[j])@ == question_text(quiz@[j]),
        decreases quiz.questions@.len() - i,
    {
        let part = write_question(&quiz.questions[i]);
        parts.push(part);
        i += 1;
    }
    assert(texts(parts@) =~= all_question_texts(quiz@));
    let list = write_list(&parts);
    let mut text = String::from_str("{\"questions\":");
    text.append(list.as_str());
    text.append("}");
    text
}

/// The text of a JSON string.
pub open spec fn text_of(json: JsonView) -> Option<Seq<char>> {
    match json {
        JsonView::Str(s) => Some(s),
        _ => None,
    }
}

/// The texts of some JSON strings; `None` where one of `items` is no string.
pub open spec fn texts_of(items: Seq<JsonView>) -> Option<Seq<Seq<char>>> {
    if forall|i: int| 0 <= i < items.len() ==> (#[trigger] text_of(items[i])).is_some() {
        Some(Seq::new(items.len(), |i: int| text_of(items[i]).unwrap()))
    } else {
        None
    }
}

/// The question that a JSON value stands for: an object whose fields
/// `text` and `correct` are strings and whose field `incorrects` is an
/// array of strings. Other fields are passed over.
pub open spec fn question_of(json: JsonView) -> Option<QuestionView> {
    match json {
        JsonView::Object(fields) => match (
            field_of(fields, "text"@),
            field_of(fields, "correct"@),
            field_of(fields, "incorrects"@),
        ) {
            (
                Some(JsonView::Str(text)),
                Some(JsonView::Str(correct)),
                Some(JsonView::Array(items)),
            ) => {
                match texts_of(items) {
                    Some(incorrects) => Some(QuestionView { text, correct, incorrects }),
                    None => None,
                }
            },
            _ => None,
        },
        _ => None,
    }
}

/// The questions that some JSON values stand for; `None` where one of them
/// is no question.
pub open spec fn questions_of(items: Seq<JsonView>) -> Option<Seq<QuestionView>> {
    if forall|i: int| 0 <= i < items.len() ==> (#[trigger] question_of(items[i])).is_some() {
        Some(Seq::new(items.len(), |i: int| question_of(items[i]).unwrap()))
    } else {
        None
    }
}

/// The quiz that a JSON value stands for: an object whose field `questions`
/// is an array of questions.
pub open spec fn quiz_of(json: JsonView) -> Option<Seq<QuestionView>> {
    match json {
        JsonView::Object(fields) => match field_of(fields, "questions"@) {
            Some(JsonView::Array(items)) => questions_of(items),
            _ => None,
        },
        _ => None,
    }
}

/// What reading a quiz out of the text of a quiz file gives. An empty file
/// holds the empty quiz.
pub open spec fn quiz_of_text(text: Seq<char>) -> Result<Seq<QuestionView>, QuizFault> {
    if text.len() == 0 {
        Ok(Seq::empty())
    } else {
        match parsed(text) {
            Err(message) => Err(QuizFault::Syntax(message)),
            Ok(json) => match quiz_of(json) {
                Some(quiz) => Ok(quiz),
                None => Err(QuizFault::Shape),
            },
        }
    }
}

/// Whether `r` is what reading a quiz out of `text` has to give.
pub open spec fn reads_as(text: Seq<char>, r: Result<Quiz, QuizError>) -> bool {
    match quiz_of_text(text) {
        Ok(quiz) => r matches Ok(q) && q@ == quiz,
        Err(fault) => r matches Err(e) && e@ == fault,
    }
}

/// Reads strings out of JSON values.
fn read_texts(items: &Vec<Json>) -> (r: Option<Vec<String>>)
    ensures
        match r {
            Some(found) => texts_of(item_views(items@)) == Some(texts(found@)),
            None => texts_of(item_views(items@)).is_none(),
        },
{
    let mut found: Vec<String> = Vec::new();
    let mut i: usize = 0;
    while i < items.len()
        invariant
            i <= items@.len(),
            found@.len() == i,
            forall|j: int| 0 <= j < i ==> text_of(items@[j]@) == Some((#[trigger] found@[j])@),
        decreases items@.len() - i,
    {
        match &items[i] {
            Json::Str(s) => found.push(s.clone()),
            _ => {
                assert(text_of(item_views(items@)[i as int]).is_none());
                return None;
            },
        }
        i += 1;
    }
    proof {
        let views = item_views(items@);
        assert forall|j: int| 0 <= j < views.len() implies (#[trigger] text_of(
            views[j],
        )).is_some() by {
            assert(text_of(items@[j]@) == Some(found@[j]@));
        }
        assert(texts_of(views).unwrap() =~= texts(found@));
    }
    Some(found)
}

/// Reads a question out of a JSON value.
fn read_question(json: &Json) -> (r: Option<Question>)
    ensures
        match r {
            Some(q) => question_of(json@) == Some(q@),
            None => question_of(json@).is_none(),
        },
{
    let fields = match json {
        Json::Object(fields) => fields,
        _ => {
            return None;
        },
    };
    let text = match find_field(fields, "text") {
        Some(Json::Str(s)) => s.clone(),
        _ => {
            return None;
        },
    };
    let correct = match find_field(fields, "correct") {
        Some(Json::Str(s)) => s.clone(),
        _ => {
            return None;
        },
    };
    let items = match find_field(fields, "incorrects") {
        Some(Json::Array(items)) => items,
        _ => {
            return None;
        },
    };
    match read_texts(items) {
        Some(incorrects) => Some(Question { text, correct, incorrects }),
        None => None,
    }
}

/// Reads a quiz out of a JSON value.
pub fn read_quiz(json: &Json) -> (r: Option<Quiz>)
    ensures
        match r {
            Some(quiz) => quiz_of(json@) == Some(quiz@),
            None => quiz_of(json@).is_none(),
        },
{
    let fields = match json {
        Json::Object(fields) => fields,
        _ => {
            return None;
        },
    };
    let items = match find_field(fields, "questions") {
        Some(Json::Array(items)) => items,
        _ => {
            return None;
        },
    };
    let mut questions: Vec<Question> = Vec::new();
    let mut i: usize = 0;
    while i < items.len()
        invariant
            i <= items@.len(),
            questions@.len() == i,
            quiz_of(json@) == questions_of(item_views(items@)),
            forall|j: int|
                0 <= j < i ==> question_of(items@[j]@) == Some((#[trigger] questions@[j])@),
        decreases items@.len() - i,
    {
        match read_question(&items[i]) {
            Some(q) => questions.push(q),
            None => {
                assert(question_of(item_views(items@)[i as int]).is_none());
                return None;
            },
        }
        i += 1;
    }
    let quiz = Quiz { questions };
    proof {
        let views = item_views(items@);
        assert forall|j: int| 0 <= j < views.len() implies (#[trigger] question_of(
            views[j],
        )).is_some() by {
            assert(question_of(items@[j]@) == Some(quiz.questions@[j]@));
        }
        assert(questions_of(views).unwrap() =~= quiz@);
    }
    Some(quiz)
}

/// Reads a quiz out of the text of a quiz file.
pub fn quiz_from_text(contents: &str) -> (r: Result<Quiz, QuizError>)
    ensures
        reads_as(contents@, r),
{
    if contents.is_empty() {
        Ok(Quiz::default())
    } else {
        match parse(contents) {
            Ok(json) => match read_quiz(&json) {
                Some(quiz) => Ok(quiz),
                None => Err(QuizError::Shape),
            },
            Err(message) => Err(QuizError::Syntax(message)),
        }
    }
}

} // verus!
