//! Scoring an answer to a GAIA benchmark task.

use crate::text::{is_white_space, law_trim_ignores_surrounding_white_space, trim, trim_string};
use vstd::prelude::*;
use vstd::string::*;

verus! {

/// `s` in lower case, as `str::to_lowercase` maps it.
pub uninterp spec fn lowercase_of(s: Seq<char>) -> Seq<char>;

/// Calls `str::to_lowercase`, which applies Unicode's lower-case mapping. The
/// result is named by `lowercase_of`.
#[verifier::external_body]
fn to_lowercase(s: &str) -> (r: String)
    ensures
        r@ == lowercase_of(s@),
{
    s.to_lowercase()
}

/// An answer is correct when it is not empty and equals the expected one
/// after trimming white space and lower-casing both.
pub open spec fn answers_match(prediction: Seq<char>, answer: Seq<char>) -> bool {
    prediction.len() > 0 && lowercase_of(trim(prediction)) == lowercase_of(trim(answer))
}

/// Whether `prediction` counts as the expected `answer`.
pub fn is_correct(prediction: &str, answer: &str) -> (r: bool)
    ensures
        r == answers_match(prediction@, answer@),
{
    if prediction.unicode_len() == 0 {
        false
    } else {
        let p = trim_string(prediction);
        let a = trim_string(answer);
        let pl = to_lowercase(p.as_str());
        let al = to_lowercase(a.as_str());
        pl == al
    }
}

/// Between two non-empty answers the comparison does not depend on which is
/// the prediction.
pub proof fn law_answers_match_symmetric(p: Seq<char>, a: Seq<char>)
    requires
        p.len() > 0,
        a.len() > 0,
    ensures
        answers_match(p, a) == answers_match(a, p),
{
}

/// White space around either answer does not change the verdict, and an
/// empty prediction is never correct.
pub proof fn law_answers_ignore_surrounding_white_space(
    w1: Seq<char>,
    prediction: Seq<char>,
    w2: Seq<char>,
    answer: Seq<char>,
)
    requires
        prediction.len() > 0,
        forall|j: int| 0 <= j < w1.len() ==> is_white_space(#[trigger] w1[j]),
        forall|j: int| 0 <= j < w2.len() ==> is_white_space(#[trigger] w2[j]),
    ensures
        answers_match(w1 + prediction + w2, answer) == answers_match(prediction, answer),
        answers_match(prediction, w1 + answer + w2) == answers_match(prediction, answer),
        !answers_match(Seq::<char>::empty(), answer),
{
    law_trim_ignores_surrounding_white_space(w1, prediction, w2);
    law_trim_ignores_surrounding_white_space(w1, answer, w2);
}

/// A benchmark task.
#[derive(Debug, Clone)]
pub struct GaiaRow {
    pub task_id: String,
    pub question: String,
    pub final_answer: String,
}

/// What the solver produced for a task.
#[derive(Debug, Clone)]
pub struct SolverOutput {
    pub final_answer: String,
    pub is_solvable: bool,
    pub unsolvable_reason: String,
}

/// The score of one task.
#[derive(Debug, Clone)]
pub struct GaiaEvalResult {
    pub task_id: String,
    pub model: String,
    pub correct: bool,
    pub is_solvable: Option<bool>,
    pub prediction: Option<String>,
    pub answer: String,
    pub unsolvable_reason: Option<String>,
    pub error: Option<String>,
}

/// Scores a task from the solver's outcome: its output, or the message of the
/// error that stopped it.
pub fn evaluate_gaia_single(problem: GaiaRow, model: &str, solved: Result<SolverOutput, String>) -> (r:
    GaiaEvalResult)
    ensures
        r.task_id == problem.task_id,
        r.model@ == model@,
        r.answer == problem.final_answer,
        match solved {
            Ok(out) => {
                &&& r.correct == answers_match(out.final_answer@, problem.final_answer@)
                &&& r.is_solvable == Some(out.is_solvable)
                &&& r.prediction == Some(out.final_answer)
                &&& r.unsolvable_reason == Some(out.unsolvable_reason)
                &&& r.error is None
            },
            Err(e) => {
                &&& !r.correct
                &&& r.is_solvable is None
                &&& r.prediction is None
                &&& r.unsolvable_reason is None
                &&& r.error == Some(e)
            },
        },
{
    match solved {
        Ok(out) => {
            let correct = is_correct(out.final_answer.as_str(), problem.final_answer.as_str());
            GaiaEvalResult {
                task_id: problem.task_id,
                model: String::from_str(model),
                correct,
                is_solvable: Some(out.is_solvable),
                prediction: Some(out.final_answer),
                answer: problem.final_answer,
                unsolvable_reason: Some(out.unsolvable_reason),
                error: None,
            }
        },
        Err(e) => GaiaEvalResult {
            task_id: problem.task_id,
            model: String::from_str(model),
            correct: false,
            is_solvable: None,
            prediction: None,
            answer: problem.final_answer,
            unsolvable_reason: None,
            error: Some(e),
        },
    }
}

} // verus!
