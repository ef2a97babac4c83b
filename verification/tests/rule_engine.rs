use therapy_tracker::model::{TherapyError, UserId};
use therapy_tracker::rules::{
    analyze_stress_indicators, analyze_voice_emotion, get_cbt_reflection, trauma_severity,
};

fn uid(b: u8) -> UserId {
    UserId { bytes: vec![b] }
}

#[test]
fn emotion_high_stress() {
    assert_eq!(analyze_voice_emotion(260, 190), "High stress");
}

#[test]
fn emotion_possible_depression() {
    assert_eq!(analyze_voice_emotion(170, 90), "Possible depression");
}

#[test]
fn emotion_anxiety() {
    assert_eq!(analyze_voice_emotion(210, 130), "Anxiety");
}

#[test]
fn emotion_agitation() {
    assert_eq!(analyze_voice_emotion(150, 150), "Agitation");
}

#[test]
fn emotion_neutral() {
    assert_eq!(analyze_voice_emotion(190, 110), "Neutral");
}

#[test]
fn indicators_extreme_pitch_and_fast_speech_in_order() {
    let v = analyze_stress_indicators(310, 210);
    assert_eq!(
        v,
        vec![
            "Very high pitch - extreme stress".to_string(),
            "Very fast speech - anxiety".to_string(),
        ]
    );
}

#[test]
fn indicators_elevated_pitch_and_nervous_speech() {
    let v = analyze_stress_indicators(260, 170);
    assert_eq!(
        v,
        vec![
            "Elevated pitch - stress present".to_string(),
            "Fast speech - nervousness".to_string(),
        ]
    );
}

#[test]
fn indicators_slow_speech_only() {
    let v = analyze_stress_indicators(100, 60);
    assert_eq!(v, vec!["Very slow speech - possible depression".to_string()]);
}

#[test]
fn indicators_can_be_empty() {
    let v = analyze_stress_indicators(200, 100);
    assert!(v.is_empty());
}

#[test]
fn trauma_none_is_low() {
    let words = vec!["calm".to_string(), "walk".to_string()];
    assert_eq!(trauma_severity(&words), "Low");
}

#[test]
fn trauma_two_hits_is_moderate() {
    let words = vec!["death".to_string(), "calm".to_string(), "panic".to_string()];
    assert_eq!(trauma_severity(&words), "Moderate");
}

#[test]
fn trauma_three_hits_is_high() {
    let words = vec![
        "death".to_string(),
        "abuse".to_string(),
        "violence".to_string(),
    ];
    assert_eq!(trauma_severity(&words), "High");
}

#[test]
fn trauma_matching_is_exact_token_equality() {
    let words = vec!["deaths".to_string(), "panicked".to_string()];
    assert_eq!(trauma_severity(&words), "Low");
}

#[test]
fn reflection_requires_authentication() {
    let r = get_cbt_reflection(&UserId::anonymous(), "I'm a failure");
    assert_eq!(r, Err(TherapyError::Unauthenticated));
}

#[test]
fn reflection_failure_template() {
    let r = get_cbt_reflection(&uid(1), "Lately I think I'm a failure at work").unwrap();
    assert_eq!(
        r,
        "Try to reframe: Everyone fails sometimes. What did you learn from this experience?"
    );
}

#[test]
fn reflection_hopeless_template() {
    let r = get_cbt_reflection(&uid(1), "It's hopeless").unwrap();
    assert_eq!(
        r,
        "Examine this thought: Have you felt hopeless before and things improved? What small step could you take today?"
    );
}

#[test]
fn reflection_first_match_wins() {
    let r = get_cbt_reflection(&uid(1), "I'm a failure and No one cares about me").unwrap();
    assert_eq!(
        r,
        "Try to reframe: Everyone fails sometimes. What did you learn from this experience?"
    );
}

#[test]
fn reflection_generic_fallthrough() {
    let r = get_cbt_reflection(&uid(1), "today was hard").unwrap();
    assert_eq!(
        r,
        "Reflect: Is this thought helping you or hurting you? How would you talk to a friend having this thought?"
    );
}

#[test]
fn reflection_is_case_sensitive() {
    let r = get_cbt_reflection(&uid(1), "i'm a failure").unwrap();
    assert_eq!(
        r,
        "Reflect: Is this thought helping you or hurting you? How would you talk to a friend having this thought?"
    );
}
