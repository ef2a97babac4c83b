//! The persistent core of the service: the profile store, the session store,
//! and the monotonic session-id counter, together with every operation the
//! service exposes over them.
//!
//! The durable storage engine underneath is a reliable ordered map; it is
//! modeled here by vectors whose well-formedness invariant carries exactly
//! what that engine guaranteed: profile keys are unique, session ids are
//! unique and strictly increasing in insertion order, and every session id
//! was issued by the counter.

use vstd::prelude::*;
use vstd::string::StringExecFns;
use crate::model::{
    ProfileView, TherapyError, TherapySession, SessionView, UserId, UserProfile, VoiceAnalysis,
    VoiceView, anonymous_id, res_view,
};
use crate::rules::{
    analyze_stress_indicators, analyze_voice_emotion, spec_emotion, spec_indicators,
};
use crate::text::{is_blank_str, spec_blank};

verus! {

/// Mathematical image of the whole store.
#[verifier::ext_equal]
pub struct StoreView {
    pub profiles: Seq<ProfileView>,
    pub sessions: Seq<SessionView>,
    pub session_counter: nat,
}

impl StoreView {
    /// A profile for this identity exists.
    pub open spec fn has_profile(self, u: Seq<u8>) -> bool {
        exists|j: int| 0 <= j < self.profiles.len() && self.profiles[j].principal == u
    }

    /// The index of the profile owned by this identity (unique under `wf`).
    pub open spec fn profile_index(self, u: Seq<u8>) -> int {
        choose|j: int| 0 <= j < self.profiles.len() && self.profiles[j].principal == u
    }

    /// The profile owned by this identity.
    pub open spec fn profile_of(self, u: Seq<u8>) -> ProfileView {
        self.profiles[self.profile_index(u)]
    }

    /// A session with this identifier exists.
    pub open spec fn has_session(self, id: nat) -> bool {
        exists|k: int| 0 <= k < self.sessions.len() && self.sessions[k].id == id
    }

    /// The index of the session with this identifier (unique under `wf`).
    pub open spec fn session_index(self, id: nat) -> int {
        choose|k: int| 0 <= k < self.sessions.len() && self.sessions[k].id == id
    }

    /// The session with this identifier.
    pub open spec fn session_of(self, id: nat) -> SessionView {
        self.sessions[self.session_index(id)]
    }

    /// All sessions owned by this identity, in store order.
    pub open spec fn sessions_of(self, u: Seq<u8>) -> Seq<SessionView> {
        self.sessions.filter(|s: SessionView| s.user_principal == u)
    }

    /// Consistency rules of the store:
    /// - at most one profile per identity, and never one for the anonymous
    ///   sentinel;
    /// - session ids strictly increase in insertion order (so they are
    ///   unique, and listing order matches creation order);
    /// - every session id was issued by the counter;
    /// - every session is owned by a registered identity.
    pub open spec fn wf(self) -> bool {
        &&& forall|i: int, j: int|
            0 <= i < j < self.profiles.len() ==> self.profiles[i].principal
                != self.profiles[j].principal
        &&& forall|i: int|
            0 <= i < self.profiles.len() ==> (#[trigger] self.profiles[i].principal)
                != anonymous_id()
        &&& forall|i: int, j: int|
            0 <= i < j < self.sessions.len() ==> self.sessions[i].id < self.sessions[j].id
        &&& forall|i: int|
            0 <= i < self.sessions.len() ==> 1 <= (#[trigger] self.sessions[i].id)
                <= self.session_counter
        &&& forall|i: int|
            0 <= i < self.sessions.len() ==> self.has_profile(
                #[trigger] self.sessions[i].user_principal,
            )
    }

    /// Registration: reject the anonymous caller, a blank username, and a
    /// duplicate identity; otherwise append a fresh profile whose clocks
    /// both read `now` and whose counters are zero.
    pub open spec fn spec_register(self, caller: Seq<u8>, now: u64, name: Seq<char>) -> (
        StoreView,
        Result<ProfileView, TherapyError>,
    ) {
        if caller == anonymous_id() {
            (self, Err(TherapyError::Unauthenticated))
        } else if spec_blank(name) {
            (self, Err(TherapyError::InvalidInput))
        } else if self.has_profile(caller) {
            (self, Err(TherapyError::AlreadyExists))
        } else {
            let p = ProfileView {
                principal: caller,
                username: name,
                created_at: now,
                last_active: now,
                session_count: 0,
                total_sessions: 0,
            };
            (StoreView { profiles: self.profiles.push(p), ..self }, Ok(p))
        }
    }

    /// Profile lookup: reject the anonymous caller; otherwise return the
    /// caller's profile, or report that none exists.
    pub open spec fn spec_get_profile(self, caller: Seq<u8>) -> Result<
        ProfileView,
        TherapyError,
    > {
        if caller == anonymous_id() {
            Err(TherapyError::Unauthenticated)
        } else if !self.has_profile(caller) {
            Err(TherapyError::NotFound)
        } else {
            Ok(self.profile_of(caller))
        }
    }

    /// Activity touch: refresh the caller's last-active clock to `now`,
    /// leaving every other field and record unchanged.
    pub open spec fn spec_touch(self, caller: Seq<u8>, now: u64) -> (
        StoreView,
        Result<(), TherapyError>,
    ) {
        if caller == anonymous_id() {
            (self, Err(TherapyError::Unauthenticated))
        } else if !self.has_profile(caller) {
            (self, Err(TherapyError::NotFound))
        } else {
            let j = self.profile_index(caller);
            let p = ProfileView { last_active: now, ..self.profiles[j] };
            (StoreView { profiles: self.profiles.update(j, p), ..self }, Ok(()))
        }
    }
}

impl StoreView {
    /// The open session a successful start inserts: zero duration, empty
    /// notes, the after-level mirroring the before-level, and an empty
    /// voice analysis.
    pub open spec fn fresh_session(
        id: nat,
        caller: Seq<u8>,
        now: u64,
        session_type: Seq<char>,
        stress_level_before: i32,
    ) -> SessionView {
        SessionView {
            id,
            user_principal: caller,
            session_type,
            timestamp: now,
            duration: 0,
            stress_level_before,
            stress_level_after: stress_level_before,
            notes: Seq::empty(),
            voice_analysis: VoiceView {
                pitch: 0,
                tempo: 0,
                emotion: "neutral"@,
                stress_indicators: Seq::empty(),
            },
        }
    }

    /// Session start: reject the anonymous caller and an unregistered one;
    /// otherwise advance the counter by one, use its new value as the
    /// session id, and append the open session.
    pub open spec fn spec_start(
        self,
        caller: Seq<u8>,
        now: u64,
        session_type: Seq<char>,
        stress_level_before: i32,
    ) -> (StoreView, Result<nat, TherapyError>) {
        if caller == anonymous_id() {
            (self, Err(TherapyError::Unauthenticated))
        } else if !self.has_profile(caller) {
            (self, Err(TherapyError::NotFound))
        } else {
            let id = self.session_counter + 1;
            let sess = StoreView::fresh_session(id, caller, now, session_type, stress_level_before);
            (
                StoreView { sessions: self.sessions.push(sess), session_counter: id, ..self },
                Ok(id),
            )
        }
    }

    /// Session end: reject the anonymous caller, an unknown session id,
    /// and a caller that does not own the session; otherwise overwrite
    /// duration, after-level and notes, recompute the voice analysis from
    /// the two scalars, and record the completion on the owner's profile
    /// (which exists whenever the store is well formed; a vanished profile
    /// is a defensive no-op). Identifier and owner are never changed.
    pub open spec fn spec_end(
        self,
        caller: Seq<u8>,
        now: u64,
        session_id: nat,
        duration: u32,
        stress_level_after: i32,
        notes: Seq<char>,
        pitch: i32,
        tempo: i32,
    ) -> (StoreView, Result<SessionView, TherapyError>) {
        if caller == anonymous_id() {
            (self, Err(TherapyError::Unauthenticated))
        } else if !self.has_session(session_id) {
            (self, Err(TherapyError::NotFound))
        } else {
            let k = self.session_index(session_id);
            if self.sessions[k].user_principal != caller {
                (self, Err(TherapyError::Unauthorized))
            } else {
                let sess = SessionView {
                    duration,
                    stress_level_after,
                    notes,
                    voice_analysis: VoiceView {
                        pitch,
                        tempo,
                        emotion: spec_emotion(pitch, tempo),
                        stress_indicators: spec_indicators(pitch, tempo),
                    },
                    ..self.sessions[k]
                };
                let with_session = StoreView { sessions: self.sessions.update(k, sess), ..self };
                let s2 = if self.has_profile(caller) {
                    let j = self.profile_index(caller);
                    let p = ProfileView {
                        total_sessions: self.profiles[j].total_sessions + 1,
                        last_active: now,
                        ..self.profiles[j]
                    };
                    StoreView { profiles: self.profiles.update(j, p), ..with_session }
                } else {
                    with_session
                };
                (s2, Ok(sess))
            }
        }
    }

    /// Session listing: reject the anonymous caller; otherwise return the
    /// caller's sessions in store order.
    pub open spec fn spec_list(self, caller: Seq<u8>) -> Result<Seq<SessionView>, TherapyError> {
        if caller == anonymous_id() {
            Err(TherapyError::Unauthenticated)
        } else {
            Ok(self.sessions_of(caller))
        }
    }
}

/// Under `wf`, an index whose profile carries identity `u` is the unique
/// profile index of `u`.
pub proof fn lemma_profile_index_is(s: StoreView, u: Seq<u8>, i: int)
    requires
        s.wf(),
        0 <= i < s.profiles.len(),
        s.profiles[i].principal == u,
    ensures
        s.has_profile(u),
        s.profile_index(u) == i,
{
    assert(s.has_profile(u));
    let j = s.profile_index(u);
    if i < j {
        assert(s.profiles[i].principal != s.profiles[j].principal);
    } else if j < i {
        assert(s.profiles[j].principal != s.profiles[i].principal);
    }
}

/// Under `wf`, an index whose session carries identifier `id` is the unique
/// session index of `id`.
pub proof fn lemma_session_index_is(s: StoreView, id: nat, k: int)
    requires
        s.wf(),
        0 <= k < s.sessions.len(),
        s.sessions[k].id == id,
    ensures
        s.has_session(id),
        s.session_index(id) == k,
{
    assert(s.has_session(id));
    let j = s.session_index(id);
    if k < j {
        assert(s.sessions[k].id < s.sessions[j].id);
    } else if j < k {
        assert(s.sessions[j].id < s.sessions[k].id);
    }
}

/// The profile store, the session store, and the session-id counter.
pub struct TherapyStore {
    pub profiles: Vec<UserProfile>,
    pub sessions: Vec<TherapySession>,
    pub session_counter: u64,
}

impl View for TherapyStore {
    type V = StoreView;

    open spec fn view(&self) -> StoreView {
        StoreView {
            profiles: self.profiles.deep_view(),
            sessions: self.sessions.deep_view(),
            session_counter: self.session_counter as nat,
        }
    }
}

impl TherapyStore {
    /// An empty store with the counter at zero.
    pub fn new() -> (r: TherapyStore)
        ensures
            r@.wf(),
            r@.profiles == Seq::<ProfileView>::empty(),
            r@.sessions == Seq::<SessionView>::empty(),
            r@.session_counter == 0,
    {
        let r = TherapyStore { profiles: Vec::new(), sessions: Vec::new(), session_counter: 0 };
        proof {
            assert(r@.profiles =~= Seq::<ProfileView>::empty());
            assert(r@.sessions =~= Seq::<SessionView>::empty());
        }
        r
    }

    /// Linear scan for the caller's profile.
    fn find_profile(&self, caller: &UserId) -> (r: Option<usize>)
        ensures
            match r {
                Some(i) => {
                    &&& i < self.profiles.len()
                    &&& self@.profiles[i as int].principal == caller@
                    &&& self@.has_profile(caller@)
                },
                None => !self@.has_profile(caller@),
            },
    {
        let n = self.profiles.len();
        let mut i: usize = 0;
        while i < n
            invariant
                n == self.profiles.len(),
                i <= n,
                forall|k: int| 0 <= k < i ==> self@.profiles[k].principal != caller@,
            decreases n - i,
        {
            if self.profiles[i].principal.eq_id(caller) {
                proof {
                    assert(self@.profiles[i as int].principal == caller@);
                    assert(self@.has_profile(caller@));
                }
                return Some(i);
            }
            i = i + 1;
        }
        None
    }

    /// Register the caller under `username`. Fails `Unauthenticated` for
    /// the anonymous caller, `InvalidInput` for a blank username, and
    /// `AlreadyExists` for an identity that already has a profile; a failed
    /// call leaves the store untouched.
    pub fn register_user(&mut self, caller: &UserId, now: u64, username: String) -> (r: Result<
        UserProfile,
        TherapyError,
    >)
        requires
            old(self)@.wf(),
        ensures
            final(self)@.wf(),
            ({
                let (s2, res) = old(self)@.spec_register(caller@, now, username@);
                final(self)@ == s2 && res_view(r) == res
            }),
    {
        if caller.is_anonymous() {
            return Err(TherapyError::Unauthenticated);
        }
        if is_blank_str(username.as_str()) {
            return Err(TherapyError::InvalidInput);
        }
        match self.find_profile(caller) {
            Some(_) => Err(TherapyError::AlreadyExists),
            None => {
                let profile = UserProfile {
                    principal: caller.duplicate(),
                    username,
                    created_at: now,
                    last_active: now,
                    session_count: 0,
                    total_sessions: 0,
                };
                let ret = profile.duplicate();
                let ghost prev = self@;
                self.profiles.push(profile);
                proof {
                    let (s2, res) = prev.spec_register(caller@, now, ret@.username);
                    assert(self@.profiles =~= s2.profiles);
                    assert(self@ =~= s2);
                    assert(res_view(Ok::<UserProfile, TherapyError>(ret)) == res);
                    lemma_register_preserves_wf(prev, caller@, now, ret@.username);
                }
                Ok(ret)
            },
        }
    }

    /// Return the caller's profile, or `NotFound` if unregistered.
    pub fn get_user_profile(&self, caller: &UserId) -> (r: Result<UserProfile, TherapyError>)
        requires
            self@.wf(),
        ensures
            res_view(r) == self@.spec_get_profile(caller@),
    {
        if caller.is_anonymous() {
            return Err(TherapyError::Unauthenticated);
        }
        match self.find_profile(caller) {
            Some(i) => {
                let p = self.profiles[i].duplicate();
                proof {
                    lemma_profile_index_is(self@, caller@, i as int);
                }
                Ok(p)
            },
            None => Err(TherapyError::NotFound),
        }
    }

    /// Refresh the caller's last-active clock to `now`. Fails `NotFound`
    /// if the caller is unregistered; a failed call leaves the store
    /// untouched.
    pub fn update_last_active(&mut self, caller: &UserId, now: u64) -> (r: Result<
        (),
        TherapyError,
    >)
        requires
            old(self)@.wf(),
        ensures
            final(self)@.wf(),
            ({
                let (s2, res) = old(self)@.spec_touch(caller@, now);
                final(self)@ == s2 && r == res
            }),
    {
        if caller.is_anonymous() {
            return Err(TherapyError::Unauthenticated);
        }
        match self.find_profile(caller) {
            Some(i) => {
                let ghost prev = self@;
                let mut p = self.profiles[i].duplicate();
                p.last_active = now;
                self.profiles.set(i, p);
                proof {
                    lemma_profile_index_is(prev, caller@, i as int);
                    let (s2, res) = prev.spec_touch(caller@, now);
                    assert(self@.profiles[i as int] =~= s2.profiles[i as int]);
                    assert(self@.profiles =~= s2.profiles);
                    assert(self@ =~= s2);
                    lemma_touch_preserves_wf(prev, caller@, now);
                }
                Ok(())
            },
            None => Err(TherapyError::NotFound),
        }
    }

    /// How many profiles the store holds (diagnostic, unauthenticated).
    pub fn get_total_users(&self) -> (r: u64)
        ensures
            r as nat == self@.profiles.len(),
    {
        self.profiles.len() as u64
    }

    /// How many sessions the store holds (diagnostic, unauthenticated).
    pub fn get_total_sessions(&self) -> (r: u64)
        ensures
            r as nat == self@.sessions.len(),
    {
        self.sessions.len() as u64
    }
}

impl TherapyStore {
    /// Linear scan for a session by identifier.
    fn find_session(&self, session_id: u64) -> (r: Option<usize>)
        ensures
            match r {
                Some(k) => {
                    &&& k < self.sessions.len()
                    &&& self@.sessions[k as int].id == session_id as nat
                    &&& self@.has_session(session_id as nat)
                },
                None => !self@.has_session(session_id as nat),
            },
    {
        let n = self.sessions.len();
        let mut i: usize = 0;
        while i < n
            invariant
                n == self.sessions.len(),
                i <= n,
                forall|k: int| 0 <= k < i ==> self@.sessions[k].id != session_id as nat,
            decreases n - i,
        {
            if self.sessions[i].id == session_id {
                return Some(i);
            }
            i = i + 1;
        }
        None
    }

    /// Start a session for the caller: allocate the next counter value as
    /// the session id and insert the open session. Fails `NotFound` if the
    /// caller has no profile; a failed call leaves the store untouched.
    /// The counter bound is a machine limit on the 64-bit id space.
    pub fn start_therapy_session(
        &mut self,
        caller: &UserId,
        now: u64,
        session_type: String,
        stress_level_before: i32,
    ) -> (r: Result<u64, TherapyError>)
        requires
            old(self)@.wf(),
            old(self)@.session_counter < u64::MAX,
        ensures
            final(self)@.wf(),
            ({
                let (s2, res) = old(self)@.spec_start(
                    caller@,
                    now,
                    session_type@,
                    stress_level_before,
                );
                &&& final(self)@ == s2
                &&& match r {
                    Ok(id) => res == Ok::<nat, TherapyError>(id as nat),
                    Err(e) => res == Err::<nat, TherapyError>(e),
                }
            }),
    {
        if caller.is_anonymous() {
            return Err(TherapyError::Unauthenticated);
        }
        match self.find_profile(caller) {
            None => Err(TherapyError::NotFound),
            Some(_) => {
                let id = self.session_counter + 1;
                self.session_counter = id;
                let ghost prev = old(self)@;
                let session = TherapySession {
                    id,
                    user_principal: caller.duplicate(),
                    session_type,
                    timestamp: now,
                    duration: 0,
                    stress_level_before,
                    stress_level_after: stress_level_before,
                    notes: String::new(),
                    voice_analysis: VoiceAnalysis {
                        pitch: 0,
                        tempo: 0,
                        emotion: String::from_str("neutral"),
                        stress_indicators: Vec::new(),
                    },
                };
                proof {
                    assert(session@ =~= StoreView::fresh_session(
                        id as nat,
                        caller@,
                        now,
                        session@.session_type,
                        stress_level_before,
                    ));
                }
                self.sessions.push(session);
                proof {
                    let (s2, res) = prev.spec_start(
                        caller@,
                        now,
                        session@.session_type,
                        stress_level_before,
                    );
                    assert(self@.sessions =~= s2.sessions);
                    assert(self@ =~= s2);
                    lemma_start_preserves_wf(
                        prev,
                        caller@,
                        now,
                        session@.session_type,
                        stress_level_before,
                    );
                }
                Ok(id)
            },
        }
    }

    /// End a session: overwrite its mutable fields, recompute the voice
    /// analysis from the two scalars, and record the completion on the
    /// owner's profile. Fails `NotFound` for an unknown id and
    /// `Unauthorized` for a caller that does not own the session; a failed
    /// call leaves the store untouched. The completion-counter bound is a
    /// machine limit on the 32-bit counter.
    pub fn end_therapy_session(
        &mut self,
        caller: &UserId,
        now: u64,
        session_id: u64,
        duration: u32,
        stress_level_after: i32,
        notes: String,
        pitch: i32,
        tempo: i32,
    ) -> (r: Result<TherapySession, TherapyError>)
        requires
            old(self)@.wf(),
            forall|j: int|
                0 <= j < old(self)@.profiles.len() ==> (#[trigger] old(
                    self,
                )@.profiles[j].total_sessions) < u32::MAX,
        ensures
            final(self)@.wf(),
            ({
                let (s2, res) = old(self)@.spec_end(
                    caller@,
                    now,
                    session_id as nat,
                    duration,
                    stress_level_after,
                    notes@,
                    pitch,
                    tempo,
                );
                final(self)@ == s2 && res_view(r) == res
            }),
    {
        if caller.is_anonymous() {
            return Err(TherapyError::Unauthenticated);
        }
        match self.find_session(session_id) {
            None => Err(TherapyError::NotFound),
            Some(k) => {
                proof {
                    lemma_session_index_is(self@, session_id as nat, k as int);
                }
                if !self.sessions[k].user_principal.eq_id(caller) {
                    return Err(TherapyError::Unauthorized);
                }
                let ghost prev = old(self)@;
                let mut sess = self.sessions[k].duplicate();
                sess.duration = duration;
                sess.stress_level_after = stress_level_after;
                sess.notes = notes;
                sess.voice_analysis = VoiceAnalysis {
                    pitch,
                    tempo,
                    emotion: String::from_str(analyze_voice_emotion(pitch, tempo)),
                    stress_indicators: analyze_stress_indicators(pitch, tempo),
                };
                let ret = sess.duplicate();
                self.sessions.set(k, sess);
                match self.find_profile(caller) {
                    Some(j) => {
                        let mut p = self.profiles[j].duplicate();
                        proof {
                            lemma_profile_index_is(prev, caller@, j as int);
                        }
                        p.total_sessions = p.total_sessions + 1;
                        p.last_active = now;
                        self.profiles.set(j, p);
                    },
                    None => {},
                }
                proof {
                    let (s2, res) = prev.spec_end(
                        caller@,
                        now,
                        session_id as nat,
                        duration,
                        stress_level_after,
                        ret@.notes,
                        pitch,
                        tempo,
                    );
                    assert(ret@ =~= res->Ok_0);
                    assert(self@.sessions =~= s2.sessions);
                    assert(self@.profiles =~= s2.profiles);
                    assert(self@ =~= s2);
                    lemma_end_preserves_wf(
                        prev,
                        caller@,
                        now,
                        session_id as nat,
                        duration,
                        stress_level_after,
                        ret@.notes,
                        pitch,
                        tempo,
                    );
                }
                Ok(ret)
            },
        }
    }

    /// List the caller's sessions, in store order (insertion order, which
    /// matches id order and creation order).
    pub fn get_user_sessions(&self, caller: &UserId) -> (r: Result<
        Vec<TherapySession>,
        TherapyError,
    >)
        ensures
            res_view(r) == self@.spec_list(caller@),
    {
        if caller.is_anonymous() {
            return Err(TherapyError::Unauthenticated);
        }
        let n = self.sessions.len();
        let mut out: Vec<TherapySession> = Vec::new();
        let ghost pred = |s: SessionView| s.user_principal == caller@;
        let mut i: usize = 0;
        while i < n
            invariant
                n == self.sessions.len(),
                i <= n,
                out.deep_view() == self@.sessions.take(i as int).filter(pred),
                pred == (|s: SessionView| s.user_principal == caller@),
            decreases n - i,
        {
            proof {
                reveal(Seq::filter);
                assert(self@.sessions.take(i + 1).drop_last() =~= self@.sessions.take(i as int));
                assert(self@.sessions.take(i + 1).last() == self@.sessions[i as int]);
            }
            if self.sessions[i].user_principal.eq_id(caller) {
                out.push(self.sessions[i].duplicate());
                proof {
                    assert(out.deep_view() =~= self@.sessions.take(i + 1).filter(pred));
                }
            } else {
                proof {
                    assert(out.deep_view() =~= self@.sessions.take(i + 1).filter(pred));
                }
            }
            i = i + 1;
        }
        proof {
            assert(self@.sessions.take(n as int) =~= self@.sessions);
            assert(out.deep_view() == self@.sessions_of(caller@));
        }
        Ok(out)
    }
}

/// A successful start preserves the store's consistency rules.
pub(crate) proof fn lemma_start_preserves_wf(
    s: StoreView,
    caller: Seq<u8>,
    now: u64,
    session_type: Seq<char>,
    stress_level_before: i32,
)
    requires
        s.wf(),
    ensures
        s.spec_start(caller, now, session_type, stress_level_before).0.wf(),
{
    let s2 = s.spec_start(caller, now, session_type, stress_level_before).0;
    if caller != anonymous_id() && s.has_profile(caller) {
        assert forall|i: int, j: int|
            0 <= i < j < s2.sessions.len() implies s2.sessions[i].id < s2.sessions[j].id by {
            if j == s.sessions.len() as int {
                assert(s.sessions[i].id <= s.session_counter);
            }
        }
        assert forall|i: int|
            0 <= i < s2.sessions.len() implies 1 <= (#[trigger] s2.sessions[i].id)
            <= s2.session_counter by {
            if i < s.sessions.len() {
                assert(s.sessions[i].id <= s.session_counter);
            }
        }
        assert forall|i: int|
            0 <= i < s2.sessions.len() implies s2.has_profile(
            #[trigger] s2.sessions[i].user_principal,
        ) by {
            let u = s2.sessions[i].user_principal;
            if i < s.sessions.len() {
                assert(s.has_profile(u));
            } else {
                assert(u == caller);
            }
            let j = choose|j: int| 0 <= j < s.profiles.len() && s.profiles[j].principal == u;
            assert(s2.profiles[j].principal == u);
        }
    }
}

/// A successful end preserves the store's consistency rules: it never
/// changes a session's identifier or owner, nor a profile's identity.
pub(crate) proof fn lemma_end_preserves_wf(
    s: StoreView,
    caller: Seq<u8>,
    now: u64,
    session_id: nat,
    duration: u32,
    stress_level_after: i32,
    notes: Seq<char>,
    pitch: i32,
    tempo: i32,
)
    requires
        s.wf(),
    ensures
        s.spec_end(caller, now, session_id, duration, stress_level_after, notes, pitch, tempo).0.wf(),
{
    let s2 = s.spec_end(
        caller,
        now,
        session_id,
        duration,
        stress_level_after,
        notes,
        pitch,
        tempo,
    ).0;
    assert(s2.sessions.len() == s.sessions.len());
    assert(s2.profiles.len() == s.profiles.len());
    assert(forall|i: int|
        0 <= i < s2.sessions.len() ==> (#[trigger] s2.sessions[i].id) == s.sessions[i].id
            && s2.sessions[i].user_principal == s.sessions[i].user_principal);
    assert(forall|i: int|
        0 <= i < s2.profiles.len() ==> (#[trigger] s2.profiles[i].principal)
            == s.profiles[i].principal);
    assert forall|i: int|
        0 <= i < s2.sessions.len() implies s2.has_profile(
        #[trigger] s2.sessions[i].user_principal,
    ) by {
        let u = s.sessions[i].user_principal;
        assert(s.has_profile(u));
        let j = choose|j: int| 0 <= j < s.profiles.len() && s.profiles[j].principal == u;
        assert(s2.profiles[j].principal == u);
    }
}

/// A successful registration preserves the store's consistency rules.
pub(crate) proof fn lemma_register_preserves_wf(s: StoreView, caller: Seq<u8>, now: u64, name: Seq<char>)
    requires
        s.wf(),
    ensures
        s.spec_register(caller, now, name).0.wf(),
{
    let s2 = s.spec_register(caller, now, name).0;
    if caller != anonymous_id() && !spec_blank(name) && !s.has_profile(caller) {
        assert forall|i: int, j: int|
            0 <= i < j < s2.profiles.len() implies s2.profiles[i].principal
            != s2.profiles[j].principal by {
            if j == s.profiles.len() as int {
                if s2.profiles[i].principal == caller {
                    assert(s.has_profile(caller));
                }
            }
        }
        assert forall|i: int|
            0 <= i < s2.sessions.len() implies s2.has_profile(
            #[trigger] s2.sessions[i].user_principal,
        ) by {
            let u = s.sessions[i].user_principal;
            assert(s.has_profile(u));
            let j = s.profile_index(u);
            assert(s2.profiles[j].principal == u);
        }
    }
}

/// A successful activity touch preserves the store's consistency rules.
pub(crate) proof fn lemma_touch_preserves_wf(s: StoreView, caller: Seq<u8>, now: u64)
    requires
        s.wf(),
    ensures
        s.spec_touch(caller, now).0.wf(),
{
    let s2 = s.spec_touch(caller, now).0;
    if caller != anonymous_id() && s.has_profile(caller) {
        assert forall|i: int|
            0 <= i < s2.sessions.len() implies s2.has_profile(
            #[trigger] s2.sessions[i].user_principal,
        ) by {
            let u = s.sessions[i].user_principal;
            assert(s.has_profile(u));
            let j = choose|j: int|
                0 <= j < s.profiles.len() && s.profiles[j].principal == u;
            assert(s2.profiles[j].principal == u);
        }
    }
}

} // verus!
