use therapy_tracker::model::{TherapyError, UserId};
use therapy_tracker::store::TherapyStore;

fn uid(b: u8) -> UserId {
    UserId { bytes: vec![b] }
}

#[test]
fn register_creates_profile_with_zeroed_counters() {
    let mut store = TherapyStore::new();
    let p = store
        .register_user(&uid(1), 1000, "alice".to_string())
        .unwrap();
    assert_eq!(p.principal.bytes, vec![1]);
    assert_eq!(p.username, "alice");
    assert_eq!(p.created_at, 1000);
    assert_eq!(p.last_active, 1000);
    assert_eq!(p.session_count, 0);
    assert_eq!(p.total_sessions, 0);
    assert_eq!(store.get_total_users(), 1);
}

#[test]
fn register_rejects_anonymous_caller() {
    let mut store = TherapyStore::new();
    let r = store.register_user(&UserId::anonymous(), 1000, "alice".to_string());
    assert_eq!(r.unwrap_err(), TherapyError::Unauthenticated);
    assert_eq!(store.get_total_users(), 0);
}

#[test]
fn register_rejects_empty_username() {
    let mut store = TherapyStore::new();
    let r = store.register_user(&uid(1), 1000, String::new());
    assert_eq!(r.unwrap_err(), TherapyError::InvalidInput);
}

#[test]
fn register_rejects_whitespace_only_username() {
    let mut store = TherapyStore::new();
    let r = store.register_user(&uid(1), 1000, " \t\n ".to_string());
    assert_eq!(r.unwrap_err(), TherapyError::InvalidInput);
}

#[test]
fn register_rejects_unicode_whitespace_only_username() {
    let mut store = TherapyStore::new();
    let blanks = [
        "\u{0B}", "\u{0C}", "\u{85}", "\u{A0}", "\u{1680}", "\u{2000}", "\u{2005}", "\u{200A}",
        "\u{2028}", "\u{2029}", "\u{202F}", "\u{205F}", "\u{3000}", " \t\r\n\u{0B}\u{A0}\u{3000}",
    ];
    for name in blanks {
        assert!(name.chars().all(char::is_whitespace));
        let r = store.register_user(&uid(1), 1000, name.to_string());
        assert_eq!(r.unwrap_err(), TherapyError::InvalidInput);
    }
    assert_eq!(store.get_total_users(), 0);
}

#[test]
fn register_accepts_username_with_surrounding_whitespace() {
    // Whitespace around a visible character is not "whitespace-only"; the
    // name is stored untrimmed.
    let mut store = TherapyStore::new();
    let p = store
        .register_user(&uid(1), 1000, " a\u{A0} ".to_string())
        .unwrap();
    assert_eq!(p.username, " a\u{A0} ");
    // The zero-width space is not in the Unicode White_Space set, so a
    // name made of it alone is not blank.
    assert!(!"\u{200B}".chars().all(char::is_whitespace));
    let q = store
        .register_user(&uid(2), 1000, "\u{200B}".to_string())
        .unwrap();
    assert_eq!(q.username, "\u{200B}");
}

#[test]
fn register_twice_fails_and_keeps_first_profile() {
    let mut store = TherapyStore::new();
    store
        .register_user(&uid(1), 1000, "alice".to_string())
        .unwrap();
    let second = store.register_user(&uid(1), 2000, "someone else".to_string());
    assert_eq!(second.unwrap_err(), TherapyError::AlreadyExists);
    let p = store.get_user_profile(&uid(1)).unwrap();
    assert_eq!(p.username, "alice");
    assert_eq!(p.created_at, 1000);
    assert_eq!(p.last_active, 1000);
    assert_eq!(store.get_total_users(), 1);
}

#[test]
fn get_profile_unregistered_is_not_found() {
    let store = TherapyStore::new();
    let r = store.get_user_profile(&uid(1));
    assert_eq!(r.unwrap_err(), TherapyError::NotFound);
}

#[test]
fn get_profile_anonymous_is_unauthenticated() {
    let store = TherapyStore::new();
    let r = store.get_user_profile(&UserId::anonymous());
    assert_eq!(r.unwrap_err(), TherapyError::Unauthenticated);
}

#[test]
fn update_last_active_refreshes_clock_only() {
    let mut store = TherapyStore::new();
    store
        .register_user(&uid(1), 1000, "alice".to_string())
        .unwrap();
    store.update_last_active(&uid(1), 5000).unwrap();
    let p = store.get_user_profile(&uid(1)).unwrap();
    assert_eq!(p.last_active, 5000);
    assert_eq!(p.created_at, 1000);
    assert_eq!(p.username, "alice");
}

#[test]
fn update_last_active_unregistered_is_not_found() {
    let mut store = TherapyStore::new();
    let r = store.update_last_active(&uid(1), 5000);
    assert_eq!(r.unwrap_err(), TherapyError::NotFound);
}

#[test]
fn start_requires_a_profile() {
    let mut store = TherapyStore::new();
    let r = store.start_therapy_session(&uid(1), 1000, "CBT".to_string(), 7);
    assert_eq!(r.unwrap_err(), TherapyError::NotFound);
    assert_eq!(store.get_total_sessions(), 0);
}

#[test]
fn start_inserts_an_open_session() {
    let mut store = TherapyStore::new();
    store
        .register_user(&uid(1), 1000, "alice".to_string())
        .unwrap();
    let id = store
        .start_therapy_session(&uid(1), 1500, "EMDR".to_string(), 8)
        .unwrap();
    assert_eq!(id, 1);
    let sessions = store.get_user_sessions(&uid(1)).unwrap();
    assert_eq!(sessions.len(), 1);
    let s = &sessions[0];
    assert_eq!(s.id, 1);
    assert_eq!(s.user_principal.bytes, vec![1]);
    assert_eq!(s.session_type, "EMDR");
    assert_eq!(s.timestamp, 1500);
    assert_eq!(s.duration, 0);
    assert_eq!(s.stress_level_before, 8);
    assert_eq!(s.stress_level_after, 8);
    assert_eq!(s.notes, "");
    assert_eq!(s.voice_analysis.pitch, 0);
    assert_eq!(s.voice_analysis.tempo, 0);
    assert_eq!(s.voice_analysis.emotion, "neutral");
    assert!(s.voice_analysis.stress_indicators.is_empty());
}

#[test]
fn session_ids_strictly_increase_across_interleaved_users() {
    let mut store = TherapyStore::new();
    store
        .register_user(&uid(1), 1000, "alice".to_string())
        .unwrap();
    store
        .register_user(&uid(2), 1000, "bob".to_string())
        .unwrap();
    let a = store
        .start_therapy_session(&uid(1), 1100, "CBT".to_string(), 5)
        .unwrap();
    let b = store
        .start_therapy_session(&uid(2), 1200, "EMDR".to_string(), 6)
        .unwrap();
    let c = store
        .start_therapy_session(&uid(1), 1300, "Assessment".to_string(), 7)
        .unwrap();
    assert!(a < b && b < c);
    assert_eq!((a, b, c), (1, 2, 3));
    assert_eq!(store.get_total_sessions(), 3);
}

#[test]
fn end_unknown_session_is_not_found() {
    let mut store = TherapyStore::new();
    store
        .register_user(&uid(1), 1000, "alice".to_string())
        .unwrap();
    let r = store.end_therapy_session(&uid(1), 2000, 9, 50, 3, "ok".to_string(), 200, 100);
    assert_eq!(r.unwrap_err(), TherapyError::NotFound);
}

#[test]
fn end_by_non_owner_is_unauthorized_and_changes_nothing() {
    let mut store = TherapyStore::new();
    store
        .register_user(&uid(1), 1000, "alice".to_string())
        .unwrap();
    store
        .register_user(&uid(2), 1000, "bob".to_string())
        .unwrap();
    let id = store
        .start_therapy_session(&uid(1), 1100, "CBT".to_string(), 8)
        .unwrap();
    let r = store.end_therapy_session(&uid(2), 2000, id, 50, 3, "mine now".to_string(), 260, 190);
    assert_eq!(r.unwrap_err(), TherapyError::Unauthorized);
    let sessions = store.get_user_sessions(&uid(1)).unwrap();
    let s = &sessions[0];
    assert_eq!(s.id, id);
    assert_eq!(s.user_principal.bytes, vec![1]);
    assert_eq!(s.duration, 0);
    assert_eq!(s.stress_level_after, 8);
    assert_eq!(s.notes, "");
    let owner = store.get_user_profile(&uid(1)).unwrap();
    assert_eq!(owner.total_sessions, 0);
}

#[test]
fn end_writes_fields_and_records_completion() {
    let mut store = TherapyStore::new();
    store
        .register_user(&uid(1), 1000, "alice".to_string())
        .unwrap();
    let id = store
        .start_therapy_session(&uid(1), 1100, "CBT".to_string(), 8)
        .unwrap();
    let s = store
        .end_therapy_session(&uid(1), 2000, id, 45, 5, "felt better".to_string(), 260, 190)
        .unwrap();
    assert_eq!(s.id, id);
    assert_eq!(s.user_principal.bytes, vec![1]);
    assert_eq!(s.session_type, "CBT");
    assert_eq!(s.timestamp, 1100);
    assert_eq!(s.duration, 45);
    assert_eq!(s.stress_level_before, 8);
    assert_eq!(s.stress_level_after, 5);
    assert_eq!(s.notes, "felt better");
    assert_eq!(s.voice_analysis.pitch, 260);
    assert_eq!(s.voice_analysis.tempo, 190);
    assert_eq!(s.voice_analysis.emotion, "High stress");
    assert_eq!(
        s.voice_analysis.stress_indicators,
        vec![
            "Elevated pitch - stress present".to_string(),
            "Fast speech - nervousness".to_string(),
        ]
    );
    let p = store.get_user_profile(&uid(1)).unwrap();
    assert_eq!(p.total_sessions, 1);
    assert_eq!(p.last_active, 2000);
}

#[test]
fn end_round_trips_through_listing() {
    let mut store = TherapyStore::new();
    store
        .register_user(&uid(1), 1000, "alice".to_string())
        .unwrap();
    let id = store
        .start_therapy_session(&uid(1), 1100, "EMDR".to_string(), 9)
        .unwrap();
    let ended = store
        .end_therapy_session(&uid(1), 2000, id, 60, 4, "long one".to_string(), 310, 210)
        .unwrap();
    let listed = store.get_user_sessions(&uid(1)).unwrap();
    assert_eq!(listed.len(), 1);
    let s = &listed[0];
    assert_eq!(s.id, ended.id);
    assert_eq!(s.user_principal.bytes, ended.user_principal.bytes);
    assert_eq!(s.session_type, ended.session_type);
    assert_eq!(s.timestamp, ended.timestamp);
    assert_eq!(s.duration, 60);
    assert_eq!(s.stress_level_before, 9);
    assert_eq!(s.stress_level_after, 4);
    assert_eq!(s.notes, "long one");
    assert_eq!(s.voice_analysis.pitch, 310);
    assert_eq!(s.voice_analysis.tempo, 210);
    assert_eq!(s.voice_analysis.emotion, "High stress");
    assert_eq!(
        s.voice_analysis.stress_indicators,
        vec![
            "Very high pitch - extreme stress".to_string(),
            "Very fast speech - anxiety".to_string(),
        ]
    );
}

#[test]
fn end_twice_overwrites_and_counts_again() {
    let mut store = TherapyStore::new();
    store
        .register_user(&uid(1), 1000, "alice".to_string())
        .unwrap();
    let id = store
        .start_therapy_session(&uid(1), 1100, "CBT".to_string(), 8)
        .unwrap();
    store
        .end_therapy_session(&uid(1), 2000, id, 45, 5, "first".to_string(), 200, 100)
        .unwrap();
    let s = store
        .end_therapy_session(&uid(1), 3000, id, 30, 6, "second".to_string(), 150, 150)
        .unwrap();
    assert_eq!(s.duration, 30);
    assert_eq!(s.notes, "second");
    assert_eq!(s.voice_analysis.emotion, "Agitation");
    let p = store.get_user_profile(&uid(1)).unwrap();
    assert_eq!(p.total_sessions, 2);
    assert_eq!(p.last_active, 3000);
}

#[test]
fn listing_is_per_owner_and_in_creation_order() {
    let mut store = TherapyStore::new();
    store
        .register_user(&uid(1), 1000, "alice".to_string())
        .unwrap();
    store
        .register_user(&uid(2), 1000, "bob".to_string())
        .unwrap();
    store
        .start_therapy_session(&uid(1), 1100, "CBT".to_string(), 5)
        .unwrap();
    store
        .start_therapy_session(&uid(2), 1200, "EMDR".to_string(), 6)
        .unwrap();
    store
        .start_therapy_session(&uid(1), 1300, "Assessment".to_string(), 7)
        .unwrap();
    let alice = store.get_user_sessions(&uid(1)).unwrap();
    assert_eq!(alice.len(), 2);
    assert_eq!((alice[0].id, alice[1].id), (1, 3));
    let bob = store.get_user_sessions(&uid(2)).unwrap();
    assert_eq!(bob.len(), 1);
    assert_eq!(bob[0].id, 2);
}

#[test]
fn listing_anonymous_is_unauthenticated() {
    let store = TherapyStore::new();
    let r = store.get_user_sessions(&UserId::anonymous());
    assert_eq!(r.unwrap_err(), TherapyError::Unauthenticated);
}

#[test]
fn error_messages_match_the_service_wording() {
    assert_eq!(
        TherapyError::Unauthenticated.message(),
        "Authentication required"
    );
    assert_eq!(TherapyError::InvalidInput.message(), "Username cannot be empty");
    assert_eq!(TherapyError::AlreadyExists.message(), "User already registered");
    assert_eq!(
        TherapyError::Unauthorized.message(),
        "Unauthorized access to session"
    );
    assert_eq!(TherapyError::NotFound.message(), "Not found");
}

#[test]
fn session_ids_are_never_reused_after_ending() {
    let mut store = TherapyStore::new();
    store
        .register_user(&uid(1), 1000, "alice".to_string())
        .unwrap();
    let a = store
        .start_therapy_session(&uid(1), 1100, "CBT".to_string(), 5)
        .unwrap();
    store
        .end_therapy_session(&uid(1), 1200, a, 50, 4, "done".to_string(), 200, 100)
        .unwrap();
    let b = store
        .start_therapy_session(&uid(1), 1300, "CBT".to_string(), 5)
        .unwrap();
    assert!(b > a);
    assert_eq!(b, 2);
}
