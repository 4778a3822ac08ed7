use vstd::prelude::*;
use vstd::string::StringExecFns;
use crate::errors::{MailError, SessionFailure};
use crate::store_accounts::{CredView, StoredAccountData, StoredAccounts};

verus! {

/// The single SASL-style exchange string of the bearer-token mechanism.
pub open spec fn spec_xoauth2(user: Seq<char>, access_token: Seq<char>) -> Seq<char> {
    "user="@ + user + "\u{1}auth=Bearer "@ + access_token + "\u{1}\u{1}"@
}

/// Renders the bearer-token authentication exchange for a user and token.
pub fn xoauth2_string(user: &str, access_token: &str) -> (r: String)
    ensures
        r@ == spec_xoauth2(user@, access_token@),
{
    let mut out = String::from_str("user=");
    out.append(user);
    out.append("\u{1}auth=Bearer ");
    out.append(access_token);
    out.append("\u{1}\u{1}");
    proof {
        assert(out@ =~= spec_xoauth2(user@, access_token@));
    }
    out
}

/// Where the establisher stands. `Direct` tries the stored access token;
/// after a rejection the token is refreshed (`Refreshing`), the new
/// credential is persisted (`Persisting`), and the open is retried exactly
/// once (`Retrying`).
#[derive(Debug, Clone, Copy, PartialEq, Eq, Structural)]
pub enum SessionPhase {
    Direct,
    Refreshing,
    Persisting,
    Retrying,
    Done,
    Failed,
}

/// Mathematical image of the establisher.
pub struct EstablisherModel {
    pub phase: SessionPhase,
    pub user: Seq<char>,
    pub access_token: Seq<char>,
    pub refresh_token: Seq<char>,
}

/// What the outside world reports back to the establisher.
#[derive(Debug)]
pub enum SessionEvent {
    /// The last requested session open succeeded.
    OpenSucceeded,
    /// The provider rejected the last requested session open.
    OpenFailed,
    /// The token provider returned this new access token.
    RefreshSucceeded(String),
    /// The token provider rejected the refresh (status when available).
    RefreshFailed(Option<u16>),
    /// The credential store was rewritten to disk.
    PersistSucceeded,
    /// The credential store could not be rewritten to disk.
    PersistFailed,
}

/// Mathematical image of an event.
pub enum EventModel {
    OpenSucceeded,
    OpenFailed,
    RefreshSucceeded(Seq<char>),
    RefreshFailed(Option<u16>),
    PersistSucceeded,
    PersistFailed,
}

impl View for SessionEvent {
    type V = EventModel;

    open spec fn view(&self) -> EventModel {
        match self {
            SessionEvent::OpenSucceeded => EventModel::OpenSucceeded,
            SessionEvent::OpenFailed => EventModel::OpenFailed,
            SessionEvent::RefreshSucceeded(t) => EventModel::RefreshSucceeded(t@),
            SessionEvent::RefreshFailed(st) => EventModel::RefreshFailed(*st),
            SessionEvent::PersistSucceeded => EventModel::PersistSucceeded,
            SessionEvent::PersistFailed => EventModel::PersistFailed,
        }
    }
}

/// What the driver must do next.
#[derive(Debug)]
pub enum SessionAction {
    /// Attempt to open an authenticated session for this user with this
    /// access token.
    OpenSession(String, String),
    /// Ask the token provider for a new access token with this refresh
    /// token.
    RefreshToken(String),
    /// Rewrite the credential store to disk now, before anything else.
    PersistCredentials,
    /// The session from the last successful open is the result.
    Established,
    /// Establishment ended; surface this error.
    Fail(MailError),
}

/// Mathematical image of an action.
pub enum ActionModel {
    OpenSession { user: Seq<char>, access_token: Seq<char> },
    RefreshToken { refresh_token: Seq<char> },
    PersistCredentials,
    Established,
    Fail(MailError),
}

impl View for SessionAction {
    type V = ActionModel;

    open spec fn view(&self) -> ActionModel {
        match self {
            SessionAction::OpenSession(u, t) => ActionModel::OpenSession {
                user: u@,
                access_token: t@,
            },
            SessionAction::RefreshToken(t) => ActionModel::RefreshToken { refresh_token: t@ },
            SessionAction::PersistCredentials => ActionModel::PersistCredentials,
            SessionAction::Established => ActionModel::Established,
            SessionAction::Fail(e) => ActionModel::Fail(*e),
        }
    }
}

/// Which events can be reported in which phase.
pub open spec fn event_fits(phase: SessionPhase, e: EventModel) -> bool {
    match phase {
        SessionPhase::Direct => e is OpenSucceeded || e is OpenFailed,
        SessionPhase::Refreshing => e is RefreshSucceeded || e is RefreshFailed,
        SessionPhase::Persisting => e is PersistSucceeded || e is PersistFailed,
        SessionPhase::Retrying => e is OpenSucceeded || e is OpenFailed,
        SessionPhase::Done => false,
        SessionPhase::Failed => false,
    }
}

/// The complete transition relation of the establisher: from a state, the
/// credential mapping and an event to the next state, the next mapping and
/// the demanded action. The mapping changes in exactly one transition: a
/// successful refresh upserts the new access token (the refresh token
/// unchanged) before the persist-then-retry sequence begins.
pub open spec fn step_model(
    m: EstablisherModel,
    store: Map<Seq<char>, CredView>,
    e: EventModel,
) -> (EstablisherModel, Map<Seq<char>, CredView>, ActionModel) {
    match m.phase {
        SessionPhase::Direct => match e {
            EventModel::OpenSucceeded => (
                EstablisherModel { phase: SessionPhase::Done, ..m },
                store,
                ActionModel::Established,
            ),
            EventModel::OpenFailed => (
                EstablisherModel { phase: SessionPhase::Refreshing, ..m },
                store,
                ActionModel::RefreshToken { refresh_token: m.refresh_token },
            ),
            _ => (m, store, ActionModel::Fail(MailError::ProtocolError)),
        },
        SessionPhase::Refreshing => match e {
            EventModel::RefreshSucceeded(t) => (
                EstablisherModel { phase: SessionPhase::Persisting, access_token: t, ..m },
                store.insert(m.user, CredView { access_token: t, refresh_token: m.refresh_token }),
                ActionModel::PersistCredentials,
            ),
            EventModel::RefreshFailed(st) => (
                EstablisherModel { phase: SessionPhase::Failed, ..m },
                store,
                ActionModel::Fail(
                    MailError::SessionEstablishmentFailed(SessionFailure::RefreshRejected(st)),
                ),
            ),
            _ => (m, store, ActionModel::Fail(MailError::ProtocolError)),
        },
        SessionPhase::Persisting => match e {
            EventModel::PersistSucceeded => (
                EstablisherModel { phase: SessionPhase::Retrying, ..m },
                store,
                ActionModel::OpenSession { user: m.user, access_token: m.access_token },
            ),
            EventModel::PersistFailed => (
                EstablisherModel { phase: SessionPhase::Failed, ..m },
                store,
                ActionModel::Fail(MailError::StoragePersistFailed),
            ),
            _ => (m, store, ActionModel::Fail(MailError::ProtocolError)),
        },
        SessionPhase::Retrying => match e {
            EventModel::OpenSucceeded => (
                EstablisherModel { phase: SessionPhase::Done, ..m },
                store,
                ActionModel::Established,
            ),
            EventModel::OpenFailed => (
                EstablisherModel { phase: SessionPhase::Failed, ..m },
                store,
                ActionModel::Fail(
                    MailError::SessionEstablishmentFailed(SessionFailure::RetryFailed),
                ),
            ),
            _ => (m, store, ActionModel::Fail(MailError::ProtocolError)),
        },
        _ => (m, store, ActionModel::Fail(MailError::ProtocolError)),
    }
}

/// Drives one session-establishment attempt as the two-state design demands:
/// try the stored access token; on rejection refresh, persist, and retry
/// exactly once. The establisher only decides; the caller performs each
/// demanded action and reports the outcome as an event.
#[derive(Debug)]
pub struct SessionEstablisher {
    phase: SessionPhase,
    user: String,
    access_token: String,
    refresh_token: String,
}

impl View for SessionEstablisher {
    type V = EstablisherModel;

    closed spec fn view(&self) -> EstablisherModel {
        EstablisherModel {
            phase: self.phase,
            user: self.user@,
            access_token: self.access_token@,
            refresh_token: self.refresh_token@,
        }
    }
}

impl SessionEstablisher {
    /// Begins an attempt for this account with its stored credentials.
    pub fn new(user: String, cred: &StoredAccountData) -> (r: Self)
        ensures
            r@.phase is Direct,
            r@.user == user@,
            r@.access_token == cred@.access_token,
            r@.refresh_token == cred@.refresh_token,
    {
        SessionEstablisher {
            phase: SessionPhase::Direct,
            user,
            access_token: cred.access_token.clone(),
            refresh_token: cred.refresh_token.clone(),
        }
    }

    /// The current phase.
    pub fn phase(&self) -> (p: SessionPhase)
        ensures
            p == self@.phase,
    {
        self.phase
    }

    /// The first demanded action: open a session with the stored token.
    pub fn initial_action(&self) -> (a: SessionAction)
        requires
            self@.phase is Direct,
        ensures
            a@ == (ActionModel::OpenSession { user: self@.user, access_token: self@.access_token }),
    {
        SessionAction::OpenSession(self.user.clone(), self.access_token.clone())
    }

    /// Feeds the outcome of the last action back in and returns the next
    /// demanded action, exactly as `step_model` prescribes. On a successful
    /// refresh the store is updated in memory here, so the demanded persist
    /// completes (or fails the attempt) before any retry is issued.
    pub fn step(&mut self, store: &mut StoredAccounts, event: SessionEvent) -> (a: SessionAction)
        requires
            event_fits(old(self)@.phase, event@),
            old(store).wf(),
        ensures
            final(store).wf(),
            (final(self)@, final(store)@, a@) == step_model(old(self)@, old(store)@, event@),
    {
        match event {
            SessionEvent::OpenSucceeded => {
                self.phase = SessionPhase::Done;
                SessionAction::Established
            },
            SessionEvent::OpenFailed => {
                match self.phase {
                    SessionPhase::Direct => {
                        self.phase = SessionPhase::Refreshing;
                        SessionAction::RefreshToken(self.refresh_token.clone())
                    },
                    _ => {
                        self.phase = SessionPhase::Failed;
                        SessionAction::Fail(
                            MailError::SessionEstablishmentFailed(SessionFailure::RetryFailed),
                        )
                    },
                }
            },
            SessionEvent::RefreshSucceeded(t) => {
                self.access_token = t.clone();
                store.insert(
                    self.user.clone(),
                    StoredAccountData::new(t, self.refresh_token.clone()),
                );
                self.phase = SessionPhase::Persisting;
                SessionAction::PersistCredentials
            },
            SessionEvent::RefreshFailed(st) => {
                self.phase = SessionPhase::Failed;
                SessionAction::Fail(
                    MailError::SessionEstablishmentFailed(SessionFailure::RefreshRejected(st)),
                )
            },
            SessionEvent::PersistSucceeded => {
                self.phase = SessionPhase::Retrying;
                SessionAction::OpenSession(self.user.clone(), self.access_token.clone())
            },
            SessionEvent::PersistFailed => {
                self.phase = SessionPhase::Failed;
                SessionAction::Fail(MailError::StoragePersistFailed)
            },
        }
    }
}

/// Law: after a failed direct attempt, a successful refresh and a successful
/// persist, the retry is issued with the refreshed access token, and at the
/// moment the retry begins the credential mapping already carries that token
/// for the account, with the refresh token unchanged.
pub proof fn lemma_refresh_persists_before_retry(
    m: EstablisherModel,
    store: Map<Seq<char>, CredView>,
    t: Seq<char>,
)
    requires
        m.phase is Direct,
    ensures
        ({
            let (m1, store1, a1) = step_model(m, store, EventModel::OpenFailed);
            let (m2, store2, a2) = step_model(m1, store1, EventModel::RefreshSucceeded(t));
            let (m3, store3, a3) = step_model(m2, store2, EventModel::PersistSucceeded);
            &&& a1 == (ActionModel::RefreshToken { refresh_token: m.refresh_token })
            &&& a2 == ActionModel::PersistCredentials
            &&& store2 == store.insert(
                m.user,
                CredView { access_token: t, refresh_token: m.refresh_token },
            )
            &&& a3 == (ActionModel::OpenSession { user: m.user, access_token: t })
            &&& store3 == store2
            &&& store3[m.user].access_token == t
            &&& store3[m.user].refresh_token == m.refresh_token
        }),
{
}

/// Law: a rejected refresh ends the attempt with the refresh-rejected
/// failure, and the credential mapping — the stored refresh token included —
/// is left exactly as it was.
pub proof fn lemma_refresh_failure_is_terminal(
    m: EstablisherModel,
    store: Map<Seq<char>, CredView>,
    st: Option<u16>,
)
    requires
        m.phase is Refreshing,
    ensures
        ({
            let (m1, store1, a1) = step_model(m, store, EventModel::RefreshFailed(st));
            &&& a1 == ActionModel::Fail(
                MailError::SessionEstablishmentFailed(SessionFailure::RefreshRejected(st)),
            )
            &&& m1.phase is Failed
            &&& store1 == store
            &&& !event_fits(m1.phase, EventModel::OpenSucceeded)
        }),
{
}

} // verus!
