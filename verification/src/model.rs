//! Data model of the service: caller identities, profiles, sessions, voice
//! analyses, progress reports, and the error taxonomy.
//!
//! The transport layer hands the service scalar features already extracted
//! from the voice signal; they are carried here as plain integers, and the
//! caller identity as an opaque byte string.

use vstd::prelude::*;

verus! {

/// Errors a service operation can return. Every failure is an explicit
/// result value; no operation panics and no failed call mutates the stores.
#[derive(Clone, Copy, Debug, PartialEq, Eq, Structural)]
pub enum TherapyError {
    /// The caller identity is the anonymous sentinel.
    Unauthenticated,
    /// A request field is malformed (for example an empty username).
    InvalidInput,
    /// A referenced profile, session, or report source is absent.
    NotFound,
    /// A profile for this identity already exists.
    AlreadyExists,
    /// The caller does not own the referenced session.
    Unauthorized,
}

impl TherapyError {
    pub open spec fn spec_message(self) -> Seq<char> {
        match self {
            TherapyError::Unauthenticated => "Authentication required"@,
            TherapyError::InvalidInput => "Username cannot be empty"@,
            TherapyError::NotFound => "Not found"@,
            TherapyError::AlreadyExists => "User already registered"@,
            TherapyError::Unauthorized => "Unauthorized access to session"@,
        }
    }

    /// A caller-facing description of the error.
    pub fn message(&self) -> (r: &'static str)
        ensures
            r@ == self.spec_message(),
    {
        match self {
            TherapyError::Unauthenticated => "Authentication required",
            TherapyError::InvalidInput => "Username cannot be empty",
            TherapyError::NotFound => "Not found",
            TherapyError::AlreadyExists => "User already registered",
            TherapyError::Unauthorized => "Unauthorized access to session",
        }
    }
}

/// The byte string of the anonymous caller: the platform's sentinel for
/// "no authenticated identity" is the single byte 4.
pub open spec fn anonymous_id() -> Seq<u8> {
    seq![4u8]
}

/// An opaque caller identity, supplied by the authentication layer as a
/// short byte string. The service only ever compares identities for
/// equality; it never inspects or fabricates them.
#[derive(Debug)]
pub struct UserId {
    pub bytes: Vec<u8>,
}

impl View for UserId {
    type V = Seq<u8>;

    open spec fn view(&self) -> Seq<u8> {
        self.bytes@
    }
}

impl UserId {
    /// The anonymous sentinel identity.
    pub fn anonymous() -> (r: UserId)
        ensures
            r@ == anonymous_id(),
    {
        let bytes: Vec<u8> = vec![4u8];
        proof {
            assert(bytes@ =~= anonymous_id());
        }
        UserId { bytes }
    }

    /// Identity equality: the byte strings are equal.
    pub fn eq_id(&self, other: &UserId) -> (r: bool)
        ensures
            r == (self@ == other@),
    {
        if self.bytes.len() != other.bytes.len() {
            return false;
        }
        let n = self.bytes.len();
        let mut i: usize = 0;
        while i < n
            invariant
                n == self.bytes.len() == other.bytes.len(),
                i <= n,
                forall|k: int| 0 <= k < i ==> self@[k] == other@[k],
            decreases n - i,
        {
            if self.bytes[i] != other.bytes[i] {
                return false;
            }
            i = i + 1;
        }
        proof {
            assert(self@ =~= other@);
        }
        true
    }

    /// Whether this identity is the anonymous sentinel.
    pub fn is_anonymous(&self) -> (r: bool)
        ensures
            r == (self@ == anonymous_id()),
    {
        let r = self.bytes.len() == 1 && self.bytes[0] == 4u8;
        proof {
            if r {
                assert(self@ =~= anonymous_id());
            }
        }
        r
    }

    /// An owned copy of this identity.
    pub fn duplicate(&self) -> (r: UserId)
        ensures
            r@ == self@,
    {
        let n = self.bytes.len();
        let mut bytes: Vec<u8> = Vec::new();
        let mut i: usize = 0;
        while i < n
            invariant
                n == self.bytes.len(),
                i <= n,
                bytes@ =~= self@.take(i as int),
            decreases n - i,
        {
            bytes.push(self.bytes[i]);
            i = i + 1;
        }
        proof {
            assert(bytes@ =~= self@);
        }
        UserId { bytes }
    }
}

/// The image of an operation result under the views of its payload type:
/// contracts compare results at this mathematical level.
pub open spec fn res_view<T: DeepView>(r: Result<T, TherapyError>) -> Result<
    T::V,
    TherapyError,
> {
    match r {
        Ok(v) => Ok(v.deep_view()),
        Err(e) => Err(e),
    }
}

/// One registered user, keyed by identity in the profile store.
#[derive(Debug)]
pub struct UserProfile {
    pub principal: UserId,
    pub username: String,
    pub created_at: u64,
    pub last_active: u64,
    pub session_count: u32,
    pub total_sessions: u32,
}

/// Mathematical image of a profile.
#[verifier::ext_equal]
pub struct ProfileView {
    pub principal: Seq<u8>,
    pub username: Seq<char>,
    pub created_at: u64,
    pub last_active: u64,
    pub session_count: nat,
    pub total_sessions: nat,
}

impl View for UserProfile {
    type V = ProfileView;

    open spec fn view(&self) -> ProfileView {
        ProfileView {
            principal: self.principal@,
            username: self.username@,
            created_at: self.created_at,
            last_active: self.last_active,
            session_count: self.session_count as nat,
            total_sessions: self.total_sessions as nat,
        }
    }
}

impl DeepView for UserProfile {
    type V = ProfileView;

    open spec fn deep_view(&self) -> ProfileView {
        self.view()
    }
}

impl UserProfile {
    /// An owned copy of this profile.
    pub fn duplicate(&self) -> (r: UserProfile)
        ensures
            r@ == self@,
    {
        UserProfile {
            principal: self.principal.duplicate(),
            username: self.username.clone(),
            created_at: self.created_at,
            last_active: self.last_active,
            session_count: self.session_count,
            total_sessions: self.total_sessions,
        }
    }
}

/// Voice-emotion signals derived at session end from two acoustic scalars.
#[derive(Debug)]
pub struct VoiceAnalysis {
    pub pitch: i32,
    pub tempo: i32,
    pub emotion: String,
    pub stress_indicators: Vec<String>,
}

/// Mathematical image of a voice analysis.
#[verifier::ext_equal]
pub struct VoiceView {
    pub pitch: i32,
    pub tempo: i32,
    pub emotion: Seq<char>,
    pub stress_indicators: Seq<Seq<char>>,
}

impl View for VoiceAnalysis {
    type V = VoiceView;

    open spec fn view(&self) -> VoiceView {
        VoiceView {
            pitch: self.pitch,
            tempo: self.tempo,
            emotion: self.emotion@,
            stress_indicators: self.stress_indicators.deep_view(),
        }
    }
}

impl VoiceAnalysis {
    /// An owned copy of this voice analysis.
    pub fn duplicate(&self) -> (r: VoiceAnalysis)
        ensures
            r@ == self@,
    {
        let n = self.stress_indicators.len();
        let mut stress_indicators: Vec<String> = Vec::new();
        let mut i: usize = 0;
        while i < n
            invariant
                n == self.stress_indicators.len(),
                i <= n,
                stress_indicators@.len() == i,
                forall|k: int|
                    0 <= k < i ==> stress_indicators@[k]@ == self.stress_indicators@[k]@,
            decreases n - i,
        {
            stress_indicators.push(self.stress_indicators[i].clone());
            i = i + 1;
        }
        proof {
            assert(stress_indicators.deep_view() =~= self.stress_indicators.deep_view());
        }
        VoiceAnalysis {
            pitch: self.pitch,
            tempo: self.tempo,
            emotion: self.emotion.clone(),
            stress_indicators,
        }
    }
}

/// One therapy session. Open until ended: duration 0, empty notes, and
/// stress level after equal to the level before.
#[derive(Debug)]
pub struct TherapySession {
    pub id: u64,
    pub user_principal: UserId,
    pub session_type: String,
    pub timestamp: u64,
    pub duration: u32,
    pub stress_level_before: i32,
    pub stress_level_after: i32,
    pub notes: String,
    pub voice_analysis: VoiceAnalysis,
}

/// Mathematical image of a session.
#[verifier::ext_equal]
pub struct SessionView {
    pub id: nat,
    pub user_principal: Seq<u8>,
    pub session_type: Seq<char>,
    pub timestamp: u64,
    pub duration: u32,
    pub stress_level_before: i32,
    pub stress_level_after: i32,
    pub notes: Seq<char>,
    pub voice_analysis: VoiceView,
}

impl View for TherapySession {
    type V = SessionView;

    open spec fn view(&self) -> SessionView {
        SessionView {
            id: self.id as nat,
            user_principal: self.user_principal@,
            session_type: self.session_type@,
            timestamp: self.timestamp,
            duration: self.duration,
            stress_level_before: self.stress_level_before,
            stress_level_after: self.stress_level_after,
            notes: self.notes@,
            voice_analysis: self.voice_analysis@,
        }
    }
}

impl DeepView for TherapySession {
    type V = SessionView;

    open spec fn deep_view(&self) -> SessionView {
        self.view()
    }
}

impl TherapySession {
    /// An owned copy of this session.
    pub fn duplicate(&self) -> (r: TherapySession)
        ensures
            r@ == self@,
    {
        TherapySession {
            id: self.id,
            user_principal: self.user_principal.duplicate(),
            session_type: self.session_type.clone(),
            timestamp: self.timestamp,
            duration: self.duration,
            stress_level_before: self.stress_level_before,
            stress_level_after: self.stress_level_after,
            notes: self.notes.clone(),
            voice_analysis: self.voice_analysis.duplicate(),
        }
    }
}

/// An on-demand aggregate over one caller's full session history; never
/// persisted. The average stress reduction is carried exactly, as the sum
/// of the per-session reductions together with the session count.
#[derive(Debug)]
pub struct ProgressReport {
    pub user_principal: UserId,
    pub total_sessions: u64,
    pub stress_reduction_sum: i128,
    pub trend: String,
    pub recommendations: Vec<String>,
    pub generated_at: u64,
}

/// Mathematical image of a progress report.
#[verifier::ext_equal]
pub struct ReportView {
    pub user_principal: Seq<u8>,
    pub total_sessions: nat,
    pub stress_reduction_sum: int,
    pub trend: Seq<char>,
    pub recommendations: Seq<Seq<char>>,
    pub generated_at: u64,
}

impl DeepView for ProgressReport {
    type V = ReportView;

    open spec fn deep_view(&self) -> ReportView {
        self.view()
    }
}

impl View for ProgressReport {
    type V = ReportView;

    open spec fn view(&self) -> ReportView {
        ReportView {
            user_principal: self.user_principal@,
            total_sessions: self.total_sessions as nat,
            stress_reduction_sum: self.stress_reduction_sum as int,
            trend: self.trend@,
            recommendations: self.recommendations.deep_view(),
            generated_at: self.generated_at,
        }
    }
}

} // verus!
