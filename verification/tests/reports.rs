use therapy_tracker::model::{TherapyError, UserId};
use therapy_tracker::store::TherapyStore;

fn uid(b: u8) -> UserId {
    UserId { bytes: vec![b] }
}

/// A store with one registered user whose sessions were ended with the
/// given (before, after) stress pairs.
fn store_with_pairs(pairs: &[(i32, i32)]) -> TherapyStore {
    let mut store = TherapyStore::new();
    store
        .register_user(&uid(1), 1000, "alice".to_string())
        .unwrap();
    for (before, after) in pairs.iter() {
        let id = store
            .start_therapy_session(&uid(1), 1100, "CBT".to_string(), *before)
            .unwrap();
        store
            .end_therapy_session(&uid(1), 1200, id, 50, *after, "notes".to_string(), 200, 100)
            .unwrap();
    }
    store
}

#[test]
fn report_anonymous_is_unauthenticated() {
    let store = TherapyStore::new();
    let r = store.generate_user_progress_report(&UserId::anonymous(), 9000);
    assert_eq!(r.unwrap_err(), TherapyError::Unauthenticated);
}

#[test]
fn report_registered_user_without_sessions_is_not_found() {
    let mut store = TherapyStore::new();
    store
        .register_user(&uid(1), 1000, "alice".to_string())
        .unwrap();
    let r = store.generate_user_progress_report(&uid(1), 9000);
    assert_eq!(r.unwrap_err(), TherapyError::NotFound);
}

#[test]
fn report_unregistered_user_is_not_found() {
    let store = TherapyStore::new();
    let r = store.generate_user_progress_report(&uid(1), 9000);
    assert_eq!(r.unwrap_err(), TherapyError::NotFound);
}

#[test]
fn report_excellent_progress_scenario() {
    let store = store_with_pairs(&[(8, 5), (7, 4), (6, 5)]);
    let report = store.generate_user_progress_report(&uid(1), 9000).unwrap();
    assert_eq!(report.user_principal.bytes, vec![1]);
    assert_eq!(report.total_sessions, 3);
    // (8-5) + (7-4) + (6-5) = 7, an average reduction of 7/3 > 2.
    assert_eq!(report.stress_reduction_sum, 7);
    assert_eq!(report.trend, "Excellent progress");
    assert!(report
        .recommendations
        .contains(&"Continue regular sessions for best results".to_string()));
    // Average reduction is at least 1 and recent after-levels average
    // (5+4+5)/3 at most 6, so that is the only recommendation.
    assert_eq!(report.recommendations.len(), 1);
    assert_eq!(report.generated_at, 9000);
}

#[test]
fn report_needs_attention_with_low_reduction_recommendations() {
    let store = store_with_pairs(&[(5, 5), (5, 6)]);
    let report = store.generate_user_progress_report(&uid(1), 9000).unwrap();
    assert_eq!(report.total_sessions, 2);
    assert_eq!(report.stress_reduction_sum, -1);
    assert_eq!(report.trend, "Needs attention");
    assert_eq!(
        report.recommendations,
        vec![
            "Consider longer therapy sessions".to_string(),
            "Try different therapy types (EMDR vs CBT)".to_string(),
            "Continue regular sessions for best results".to_string(),
        ]
    );
}

#[test]
fn report_flags_high_recent_stress() {
    let store = store_with_pairs(&[(8, 8), (8, 9)]);
    let report = store.generate_user_progress_report(&uid(1), 9000).unwrap();
    // Recent after-levels average (8+9)/2 > 6.
    assert_eq!(
        report.recommendations,
        vec![
            "Consider longer therapy sessions".to_string(),
            "Try different therapy types (EMDR vs CBT)".to_string(),
            "Continue regular sessions for best results".to_string(),
            "Consider professional support for high stress levels".to_string(),
        ]
    );
}

#[test]
fn report_recent_window_is_last_three_sessions() {
    // Six sessions; only the last three after-levels (7, 8, 9) are in the
    // recent window, whose average exceeds 6.
    let store = store_with_pairs(&[(9, 1), (9, 1), (9, 1), (9, 7), (9, 8), (9, 9)]);
    let report = store.generate_user_progress_report(&uid(1), 9000).unwrap();
    assert_eq!(report.total_sessions, 6);
    // Reductions 8+8+8+2+1+0 = 27, average 4.5 > 2.
    assert_eq!(report.stress_reduction_sum, 27);
    assert_eq!(report.trend, "Excellent progress");
    // Five or more sessions, good reduction: only the high-stress flag.
    assert_eq!(
        report.recommendations,
        vec!["Consider professional support for high stress levels".to_string()]
    );
}

#[test]
fn report_trend_boundaries_are_strict() {
    // Sum 4 over 2 sessions: average exactly 2 is not "Excellent".
    let store = store_with_pairs(&[(6, 4), (6, 4)]);
    let report = store.generate_user_progress_report(&uid(1), 9000).unwrap();
    assert_eq!(report.stress_reduction_sum, 4);
    assert_eq!(report.trend, "Good improvement");

    // Sum 1 over 1 session: average exactly 1 is not "Good improvement".
    let store = store_with_pairs(&[(5, 4)]);
    let report = store.generate_user_progress_report(&uid(1), 9000).unwrap();
    assert_eq!(report.trend, "Gradual progress");

    // Sum 0: average exactly 0 is not "Gradual progress".
    let store = store_with_pairs(&[(5, 5)]);
    let report = store.generate_user_progress_report(&uid(1), 9000).unwrap();
    assert_eq!(report.trend, "Needs attention");
}

#[test]
fn report_counts_only_the_callers_sessions() {
    let mut store = store_with_pairs(&[(8, 5)]);
    store
        .register_user(&uid(2), 1000, "bob".to_string())
        .unwrap();
    let id = store
        .start_therapy_session(&uid(2), 1100, "EMDR".to_string(), 9)
        .unwrap();
    store
        .end_therapy_session(&uid(2), 1200, id, 50, 9, "bob's".to_string(), 200, 100)
        .unwrap();
    let report = store.generate_user_progress_report(&uid(1), 9000).unwrap();
    assert_eq!(report.total_sessions, 1);
    assert_eq!(report.stress_reduction_sum, 3);
}
