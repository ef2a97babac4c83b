//! The rule engine: pure, total classification functions over scalar and
//! text inputs. Rule order is significant throughout; overlapping ranges
//! resolve by the first matching clause.

use vstd::prelude::*;
use vstd::string::StringExecFns;
use crate::model::{TherapyError, UserId, anonymous_id};
use crate::text::{contains_str, spec_contains};

verus! {

/// The emotion label for a pitch/tempo pair: ordered rule table, first
/// match wins.
pub open spec fn spec_emotion(pitch: i32, tempo: i32) -> Seq<char> {
    if pitch > 250 && tempo > 180 {
        "High stress"@
    } else if pitch < 180 && tempo < 100 {
        "Possible depression"@
    } else if pitch > 200 && tempo > 120 {
        "Anxiety"@
    } else if pitch < 200 && tempo > 140 {
        "Agitation"@
    } else {
        "Neutral"@
    }
}

/// Classify a voice-emotion label from the two acoustic scalars.
pub fn analyze_voice_emotion(pitch: i32, tempo: i32) -> (r: &'static str)
    ensures
        r@ == spec_emotion(pitch, tempo),
{
    if pitch > 250 && tempo > 180 {
        "High stress"
    } else if pitch < 180 && tempo < 100 {
        "Possible depression"
    } else if pitch > 200 && tempo > 120 {
        "Anxiety"
    } else if pitch < 200 && tempo > 140 {
        "Agitation"
    } else {
        "Neutral"
    }
}

/// The pitch axis contributes at most one stress indicator.
pub open spec fn spec_pitch_indicators(pitch: i32) -> Seq<Seq<char>> {
    if pitch > 300 {
        seq!["Very high pitch - extreme stress"@]
    } else if pitch > 250 {
        seq!["Elevated pitch - stress present"@]
    } else {
        Seq::empty()
    }
}

/// The tempo axis contributes at most one stress indicator.
pub open spec fn spec_tempo_indicators(tempo: i32) -> Seq<Seq<char>> {
    if tempo > 200 {
        seq!["Very fast speech - anxiety"@]
    } else if tempo > 160 {
        seq!["Fast speech - nervousness"@]
    } else if tempo < 80 {
        seq!["Very slow speech - possible depression"@]
    } else {
        Seq::empty()
    }
}

/// The stress indicators for a pitch/tempo pair: the two axes are judged
/// independently, and the pitch indicator always precedes the tempo one.
pub open spec fn spec_indicators(pitch: i32, tempo: i32) -> Seq<Seq<char>> {
    spec_pitch_indicators(pitch) + spec_tempo_indicators(tempo)
}

/// Extract the ordered stress-indicator list from the two acoustic scalars.
pub fn analyze_stress_indicators(pitch: i32, tempo: i32) -> (r: Vec<String>)
    ensures
        r.deep_view() == spec_indicators(pitch, tempo),
{
    let mut r: Vec<String> = Vec::new();
    if pitch > 300 {
        r.push(String::from_str("Very high pitch - extreme stress"));
    } else if pitch > 250 {
        r.push(String::from_str("Elevated pitch - stress present"));
    }
    proof {
        assert(r.deep_view() =~= spec_pitch_indicators(pitch));
    }
    if tempo > 200 {
        r.push(String::from_str("Very fast speech - anxiety"));
    } else if tempo > 160 {
        r.push(String::from_str("Fast speech - nervousness"));
    } else if tempo < 80 {
        r.push(String::from_str("Very slow speech - possible depression"));
    }
    proof {
        assert(r.deep_view() =~= spec_pitch_indicators(pitch) + spec_tempo_indicators(tempo));
    }
    r
}

/// The fixed trauma keyword set, matched by exact token equality.
pub open spec fn is_trauma_keyword(w: Seq<char>) -> bool {
    ||| w == "death"@
    ||| w == "abuse"@
    ||| w == "violence"@
    ||| w == "accident"@
    ||| w == "panic"@
}

/// How many of the given tokens are trauma keywords.
pub open spec fn spec_trauma_count(ws: Seq<Seq<char>>) -> int
    decreases ws.len(),
{
    if ws.len() == 0 {
        0
    } else {
        spec_trauma_count(ws.drop_last()) + if is_trauma_keyword(ws.last()) {
            1int
        } else {
            0int
        }
    }
}

/// The severity label for a trauma keyword count.
pub open spec fn spec_trauma_label(count: int) -> Seq<char> {
    if count == 0 {
        "Low"@
    } else if count <= 2 {
        "Moderate"@
    } else {
        "High"@
    }
}

/// Whether one token is a trauma keyword.
fn is_trauma_keyword_exec(w: &String) -> (r: bool)
    ensures
        r == is_trauma_keyword(w@),
{
    *w == String::from_str("death") || *w == String::from_str("abuse")
        || *w == String::from_str("violence") || *w == String::from_str("accident")
        || *w == String::from_str("panic")
}

/// Grade trauma severity from a token list: no keyword hits give "Low",
/// one or two give "Moderate", three or more give "High".
pub fn trauma_severity(words: &Vec<String>) -> (r: &'static str)
    ensures
        r@ == spec_trauma_label(spec_trauma_count(words.deep_view())),
{
    let n = words.len();
    let mut count: usize = 0;
    let mut i: usize = 0;
    while i < n
        invariant
            n == words.len(),
            i <= n,
            count <= i,
            count == spec_trauma_count(words.deep_view().take(i as int)),
        decreases n - i,
    {
        proof {
            assert(words.deep_view().take(i + 1).drop_last() =~= words.deep_view().take(
                i as int,
            ));
            assert(words.deep_view().take(i + 1).last() == words@[i as int]@);
        }
        if is_trauma_keyword_exec(&words[i]) {
            count = count + 1;
        }
        i = i + 1;
    }
    proof {
        assert(words.deep_view().take(n as int) =~= words.deep_view());
    }
    if count == 0 {
        "Low"
    } else if count <= 2 {
        "Moderate"
    } else {
        "High"
    }
}

/// The reframing prompt for a catastrophic thought: ordered, case-sensitive
/// substring checks against fixed templates, first match wins, with a
/// generic reflective prompt as the fallthrough.
pub open spec fn spec_reflection(t: Seq<char>) -> Seq<char> {
    if spec_contains(t, "I'm a failure"@) {
        "Try to reframe: Everyone fails sometimes. What did you learn from this experience?"@
    } else if spec_contains(t, "No one cares about me"@) {
        "Challenge that thought: Is that 100% true? What evidence do you have? Can you think of anyone who has shown they care?"@
    } else if spec_contains(t, "I can't do anything right"@) {
        "Question this all-or-nothing thinking: What is one thing you did well today, even if small?"@
    } else if spec_contains(t, "It's hopeless"@) {
        "Examine this thought: Have you felt hopeless before and things improved? What small step could you take today?"@
    } else {
        "Reflect: Is this thought helping you or hurting you? How would you talk to a friend having this thought?"@
    }
}

/// Produce the reframing prompt for a thought.
pub fn reflect_thought(thought: &str) -> (r: String)
    ensures
        r@ == spec_reflection(thought@),
{
    if contains_str(thought, "I'm a failure") {
        String::from_str(
            "Try to reframe: Everyone fails sometimes. What did you learn from this experience?",
        )
    } else if contains_str(thought, "No one cares about me") {
        String::from_str(
            "Challenge that thought: Is that 100% true? What evidence do you have? Can you think of anyone who has shown they care?",
        )
    } else if contains_str(thought, "I can't do anything right") {
        String::from_str(
            "Question this all-or-nothing thinking: What is one thing you did well today, even if small?",
        )
    } else if contains_str(thought, "It's hopeless") {
        String::from_str(
            "Examine this thought: Have you felt hopeless before and things improved? What small step could you take today?",
        )
    } else {
        String::from_str(
            "Reflect: Is this thought helping you or hurting you? How would you talk to a friend having this thought?",
        )
    }
}

/// Authenticated entry point of the reflection rule: the anonymous caller
/// is rejected, every other caller receives the prompt for the thought.
pub fn get_cbt_reflection(caller: &UserId, thought: &str) -> (r: Result<String, TherapyError>)
    ensures
        caller@ == anonymous_id() ==> r == Err::<String, TherapyError>(
            TherapyError::Unauthenticated,
        ),
        caller@ != anonymous_id() ==> r is Ok && r->Ok_0@ == spec_reflection(thought@),
{
    if caller.is_anonymous() {
        return Err(TherapyError::Unauthenticated);
    }
    Ok(reflect_thought(thought))
}

} // verus!
