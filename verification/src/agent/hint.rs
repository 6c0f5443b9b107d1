//! What kind of answer a question asks for, and what the model is told about it.

use vstd::prelude::*;
use vstd::string::*;

use crate::agent::prompts::{
    FWA_SYSTEM_PROMPT, JSON_ARRAY_ADDENDUM, JSON_REPORT_ADDENDUM, NUMERICAL_ADDENDUM,
};
use crate::text::{contains, holds, lower, lowered, occurs};

verus! {

/// The kind of answer that a question asks for.
#[derive(Debug, Clone, Copy, PartialEq, Eq, Structural)]
pub enum TaskHint {
    /// A JSON object with a total and details.
    JsonReport,
    /// A JSON array of issues.
    JsonArray,
    /// A distance or a count.
    Numerical,
    /// Anything else.
    General,
}

/// Whether a lower-case question asks for JSON.
pub open spec fn json_cue(q: Seq<char>) -> bool {
    ||| holds(q, "json"@)
    ||| holds(q, "create a new issue"@)
    ||| holds(q, "generate a json"@)
    ||| holds(q, "report the findings"@)
    ||| holds(q, "structured format"@)
    ||| holds(q, "field \"id\""@)
    ||| holds(q, "\"id\":"@)
    ||| holds(q, "report should begin with the total"@)
}

fn has_json_cue(q: &str) -> (r: bool)
    ensures
        r == json_cue(q@),
{
    contains(q, "json")
        || contains(q, "create a new issue")
        || contains(q, "generate a json")
        || contains(q, "report the findings")
        || contains(q, "structured format")
        || contains(q, "field \"id\"")
        || contains(q, "\"id\":")
        || contains(q, "report should begin with the total")
}

/// Whether a lower-case question asks for a report with totals.
pub open spec fn report_cue(q: Seq<char>) -> bool {
    ||| holds(q, "total number of violations"@)
    ||| holds(q, "begin by stating the total"@)
    ||| holds(q, "begin with the total"@)
    ||| holds(q, "total_violations"@)
    ||| holds(q, "if there were violations"@)
    ||| holds(q, "if there were incidents"@)
    ||| holds(q, "create a new issue for each"@)
    ||| holds(q, "for each violations"@)
    ||| holds(q, "for each incidents"@)
}

fn has_report_cue(q: &str) -> (r: bool)
    ensures
        r == report_cue(q@),
{
    contains(q, "total number of violations")
        || contains(q, "begin by stating the total")
        || contains(q, "begin with the total")
        || contains(q, "total_violations")
        || contains(q, "if there were violations")
        || contains(q, "if there were incidents")
        || contains(q, "create a new issue for each")
        || contains(q, "for each violations")
        || contains(q, "for each incidents")
}

/// Whether a lower-case question asks for a number.
pub open spec fn numerical_cue(q: Seq<char>) -> bool {
    ||| holds(q, "how many"@)
    ||| holds(q, "how far"@)
    ||| holds(q, "what is the distance"@)
    ||| holds(q, "what's the distance"@)
    ||| holds(q, "less than"@)
    ||| holds(q, " meters"@)
    ||| holds(q, " metres"@)
}

fn has_numerical_cue(q: &str) -> (r: bool)
    ensures
        r == numerical_cue(q@),
{
    contains(q, "how many")
        || contains(q, "how far")
        || contains(q, "what is the distance")
        || contains(q, "what's the distance")
        || contains(q, "less than")
        || contains(q, " meters")
        || contains(q, " metres")
}

/// The kind of answer that a question asks for.
pub open spec fn hint_of(question: Seq<char>) -> TaskHint {
    let q = lowered(question);
    if json_cue(q) {
        if report_cue(q) {
            TaskHint::JsonReport
        } else {
            TaskHint::JsonArray
        }
    } else if numerical_cue(q) {
        TaskHint::Numerical
    } else {
        TaskHint::General
    }
}

/// The kind of answer that a question asks for.
pub fn infer_task_hint(question: &str) -> (r: TaskHint)
    ensures
        r == hint_of(question@),
{
    let q: String = lower(question);
    if has_json_cue(q.as_str()) {
        if has_report_cue(q.as_str()) {
            return TaskHint::JsonReport;
        }
        return TaskHint::JsonArray;
    }
    if has_numerical_cue(q.as_str()) {
        return TaskHint::Numerical;
    }
    TaskHint::General
}

/// How hard the model is to think.
pub open spec fn effort_of(hint: TaskHint) -> Seq<char> {
    match hint {
        TaskHint::General => "medium"@,
        _ => "high"@,
    }
}

/// How hard the model is to think.
pub fn reasoning_effort(hint: TaskHint) -> (r: &'static str)
    ensures
        r@ == effort_of(hint),
{
    match hint {
        TaskHint::JsonReport => "high",
        TaskHint::JsonArray => "high",
        TaskHint::Numerical => "high",
        TaskHint::General => "medium",
    }
}

/// What the model is told: the general instructions and, for a kind of answer that
/// has a format of its own, that format.
pub open spec fn prompt_of(hint: TaskHint) -> Seq<char> {
    match hint {
        TaskHint::JsonReport => FWA_SYSTEM_PROMPT@ + "\n"@ + JSON_REPORT_ADDENDUM@,
        TaskHint::JsonArray => FWA_SYSTEM_PROMPT@ + "\n"@ + JSON_ARRAY_ADDENDUM@,
        TaskHint::Numerical => FWA_SYSTEM_PROMPT@ + "\n"@ + NUMERICAL_ADDENDUM@,
        TaskHint::General => FWA_SYSTEM_PROMPT@,
    }
}

/// What the model is told.
pub fn system_prompt(hint: TaskHint) -> (r: String)
    ensures
        r@ == prompt_of(hint),
{
    let mut prompt: String = FWA_SYSTEM_PROMPT.to_owned();
    match hint {
        TaskHint::JsonReport => {
            prompt.append("\n");
            prompt.append(JSON_REPORT_ADDENDUM);
        },
        TaskHint::JsonArray => {
            prompt.append("\n");
            prompt.append(JSON_ARRAY_ADDENDUM);
        },
        TaskHint::Numerical => {
            prompt.append("\n");
            prompt.append(NUMERICAL_ADDENDUM);
        },
        TaskHint::General => {},
    }
    prompt
}

/// A question that asks for JSON in any of these words gets a report where it also asks for
/// totals, and an array otherwise; one that asks for a distance or a count gets a number;
/// any other gets words. Case does not count.
pub proof fn law_questions_tell_the_kind(question: Seq<char>)
    ensures
        ({
            let q = lowered(question);
            let json = holds(q, "json"@) || holds(q, "create a new issue"@) || holds(
                q,
                "generate a json"@,
            ) || holds(q, "report the findings"@) || holds(q, "structured format"@) || holds(
                q,
                "field \"id\""@,
            ) || holds(q, "\"id\":"@) || holds(q, "report should begin with the total"@);
            let report = holds(q, "total number of violations"@) || holds(
                q,
                "begin by stating the total"@,
            ) || holds(q, "begin with the total"@) || holds(q, "total_violations"@) || holds(
                q,
                "if there were violations"@,
            ) || holds(q, "if there were incidents"@) || holds(q, "create a new issue for each"@)
                || holds(q, "for each violations"@) || holds(q, "for each incidents"@);
            let number = holds(q, "how many"@) || holds(q, "how far"@) || holds(
                q,
                "what is the distance"@,
            ) || holds(q, "what's the distance"@) || holds(q, "less than"@) || holds(q, " meters"@)
                || holds(q, " metres"@);
            &&& hint_of(question) == TaskHint::JsonReport <==> json && report
            &&& hint_of(question) == TaskHint::JsonArray <==> json && !report
            &&& hint_of(question) == TaskHint::Numerical <==> !json && number
            &&& hint_of(question) == TaskHint::General <==> !json && !number
        }),
{
}

/// Words around a question never take a wish for JSON out of it.
pub proof fn law_more_words_keep_the_wish_for_json(q: Seq<char>, a: Seq<char>, b: Seq<char>)
    ensures
        json_cue(q) ==> json_cue(a + q + b),
        report_cue(q) ==> report_cue(a + q + b),
        numerical_cue(q) ==> numerical_cue(a + q + b),
{
    assert forall|needle: Seq<char>| #[trigger] holds(q, needle) implies holds(
        a + q + b,
        needle,
    ) by {
        let at = choose|at: int| occurs(q, needle, at);
        assert((a + q + b).subrange(a.len() + at, a.len() + at + needle.len()) =~= q.subrange(
            at,
            at + needle.len(),
        ));
        assert(occurs(a + q + b, needle, a.len() + at));
    }
}

/// Every model is told the general instructions first, and then the format of the answer
/// where that has one; it thinks hard but for answers in words.
pub proof fn law_prompts_begin_alike(hint: TaskHint)
    ensures
        prompt_of(hint).take(FWA_SYSTEM_PROMPT@.len() as int) == FWA_SYSTEM_PROMPT@,
        hint is General ==> prompt_of(hint) == FWA_SYSTEM_PROMPT@ && effort_of(hint) == "medium"@,
        !(hint is General) ==> effort_of(hint) == "high"@,
        hint is JsonReport ==> prompt_of(hint) == FWA_SYSTEM_PROMPT@ + "\n"@
            + JSON_REPORT_ADDENDUM@,
        hint is JsonArray ==> prompt_of(hint) == FWA_SYSTEM_PROMPT@ + "\n"@ + JSON_ARRAY_ADDENDUM@,
        hint is Numerical ==> prompt_of(hint) == FWA_SYSTEM_PROMPT@ + "\n"@ + NUMERICAL_ADDENDUM@,
{
    assert(prompt_of(hint).take(FWA_SYSTEM_PROMPT@.len() as int) =~= FWA_SYSTEM_PROMPT@);
}

} // verus!
