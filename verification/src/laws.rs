//! Laws of the store, stated and proved over the same transitions that the
//! executable operations are verified against.

use vstd::prelude::*;
use crate::model::{ProfileView, TherapyError, VoiceView, anonymous_id};
use crate::rules::{spec_emotion, spec_indicators};
use crate::store::{
    StoreView, lemma_profile_index_is, lemma_register_preserves_wf, lemma_session_index_is,
    lemma_start_preserves_wf, lemma_end_preserves_wf,
};

verus! {

/// Registration is idempotent-safe: after a successful registration,
/// registering the same identity again with any non-blank username and any
/// timestamp returns `AlreadyExists` and changes nothing; in particular the
/// profile the first call created keeps every field it was created with.
/// (A blank username on the second call is rejected as `InvalidInput`
/// before the duplicate check is reached, and also changes nothing.)
pub proof fn lemma_register_idempotent(
    s: StoreView,
    caller: Seq<u8>,
    now1: u64,
    name1: Seq<char>,
    now2: u64,
    name2: Seq<char>,
)
    requires
        s.wf(),
        s.spec_register(caller, now1, name1).1 is Ok,
        !crate::text::spec_blank(name2),
    ensures
        ({
            let (s1, r1) = s.spec_register(caller, now1, name1);
            let (s2, r2) = s1.spec_register(caller, now2, name2);
            &&& r2 == Err::<ProfileView, TherapyError>(TherapyError::AlreadyExists)
            &&& s2 == s1
            &&& s1.has_profile(caller)
            &&& s1.profile_of(caller) == r1->Ok_0
        }),
{
    let (s1, r1) = s.spec_register(caller, now1, name1);
    let m = s.profiles.len() as int;
    assert(s1.profiles[m].principal == caller);
    lemma_register_preserves_wf(s, caller, now1, name1);
    lemma_profile_index_is(s1, caller, m);
}

/// Session identifiers are unique and strictly increasing in issuance
/// order: in every well-formed store, a session inserted later has a
/// strictly greater identifier.
pub proof fn lemma_session_ids_strictly_increasing(s: StoreView, i: int, j: int)
    requires
        s.wf(),
        0 <= i < j < s.sessions.len(),
    ensures
        s.sessions[i].id < s.sessions[j].id,
        s.sessions[i].id != s.sessions[j].id,
{
}

/// A successful start issues an identifier strictly greater than every
/// identifier already in the store — whichever identities, interleaved or
/// not, started the earlier sessions — and keeps the store well formed.
pub proof fn lemma_start_issues_fresh_id(
    s: StoreView,
    caller: Seq<u8>,
    now: u64,
    session_type: Seq<char>,
    stress_level_before: i32,
)
    requires
        s.wf(),
        s.spec_start(caller, now, session_type, stress_level_before).1 is Ok,
    ensures
        ({
            let (s1, r) = s.spec_start(caller, now, session_type, stress_level_before);
            &&& forall|k: int|
                0 <= k < s.sessions.len() ==> (#[trigger] s.sessions[k].id) < r->Ok_0
            &&& s1.wf()
        }),
{
    lemma_start_preserves_wf(s, caller, now, session_type, stress_level_before);
}

/// Ending a session never changes its owning identity or its identifier —
/// nor anyone else's — and ending with a caller other than the owner
/// returns `Unauthorized` and leaves the whole store unmodified.
pub proof fn lemma_end_preserves_owner_and_id(
    s: StoreView,
    caller: Seq<u8>,
    now: u64,
    session_id: nat,
    duration: u32,
    stress_level_after: i32,
    notes: Seq<char>,
    pitch: i32,
    tempo: i32,
)
    requires
        s.wf(),
    ensures
        ({
            let (s1, r) = s.spec_end(
                caller,
                now,
                session_id,
                duration,
                stress_level_after,
                notes,
                pitch,
                tempo,
            );
            &&& s1.sessions.len() == s.sessions.len()
            &&& forall|i: int|
                0 <= i < s.sessions.len() ==> (#[trigger] s1.sessions[i].id) == s.sessions[i].id
                    && s1.sessions[i].user_principal == s.sessions[i].user_principal
            &&& r is Ok ==> r->Ok_0.id == session_id && r->Ok_0.user_principal == caller
            &&& (caller != anonymous_id() && s.has_session(session_id)
                && s.session_of(session_id).user_principal != caller) ==> (s1 == s && r == Err::<
                crate::model::SessionView,
                TherapyError,
            >(TherapyError::Unauthorized))
        }),
{
}

/// A failed call applies no mutation: whenever an operation returns an
/// error, the store after the call equals the store before it.
pub proof fn lemma_failed_calls_change_nothing(
    s: StoreView,
    caller: Seq<u8>,
    now: u64,
    name: Seq<char>,
    session_type: Seq<char>,
    stress_level_before: i32,
    session_id: nat,
    duration: u32,
    stress_level_after: i32,
    notes: Seq<char>,
    pitch: i32,
    tempo: i32,
)
    ensures
        s.spec_register(caller, now, name).1 is Err ==> s.spec_register(caller, now, name).0
            == s,
        s.spec_touch(caller, now).1 is Err ==> s.spec_touch(caller, now).0 == s,
        s.spec_start(caller, now, session_type, stress_level_before).1 is Err ==> s.spec_start(
            caller,
            now,
            session_type,
            stress_level_before,
        ).0 == s,
        s.spec_end(caller, now, session_id, duration, stress_level_after, notes, pitch, tempo).1
            is Err ==> s.spec_end(
            caller,
            now,
            session_id,
            duration,
            stress_level_after,
            notes,
            pitch,
            tempo,
        ).0 == s,
{
}

/// Round trip: after a successful end, the immediately following listing
/// for the same caller succeeds and contains the ended session, with every
/// field exactly as the end call wrote it — the given duration, after-level
/// and notes, and the voice analysis recomputed from the two scalars.
pub proof fn lemma_end_then_list_round_trip(
    s: StoreView,
    caller: Seq<u8>,
    now: u64,
    session_id: nat,
    duration: u32,
    stress_level_after: i32,
    notes: Seq<char>,
    pitch: i32,
    tempo: i32,
)
    requires
        s.wf(),
        s.spec_end(caller, now, session_id, duration, stress_level_after, notes, pitch, tempo).1
            is Ok,
    ensures
        ({
            let (s1, r) = s.spec_end(
                caller,
                now,
                session_id,
                duration,
                stress_level_after,
                notes,
                pitch,
                tempo,
            );
            let listed = s1.spec_list(caller);
            &&& listed is Ok
            &&& listed->Ok_0.contains(r->Ok_0)
            &&& r->Ok_0.id == session_id
            &&& r->Ok_0.user_principal == caller
            &&& r->Ok_0.duration == duration
            &&& r->Ok_0.stress_level_after == stress_level_after
            &&& r->Ok_0.notes == notes
            &&& r->Ok_0.voice_analysis == (VoiceView {
                pitch,
                tempo,
                emotion: spec_emotion(pitch, tempo),
                stress_indicators: spec_indicators(pitch, tempo),
            })
        }),
{
    let (s1, r) = s.spec_end(
        caller,
        now,
        session_id,
        duration,
        stress_level_after,
        notes,
        pitch,
        tempo,
    );
    let k = s.session_index(session_id);
    lemma_session_index_is(s, session_id, k);
    assert(s1.sessions[k] == r->Ok_0);
    let pred = |x: crate::model::SessionView| x.user_principal == caller;
    s1.sessions.lemma_filter_contains(pred, k);
    assert(s1.spec_list(caller)->Ok_0.contains(r->Ok_0));
}

} // verus!
