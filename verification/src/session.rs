//! The login of one session: anonymous, sent to the provider with a token,
//! or authenticated as a user.
//!
//! The functions here decide; they do not send, store or fetch. A caller
//! hands in the state of the session and what happened, performs the action
//! that comes back, and stores the state that comes back.

use crate::constants::OPENID_MODE_CHECK_AUTHENTICATION;
use crate::entries::put;
use crate::nonce_set::{consume_spec, is_token, replace_spec, AuthRequestNonce, NonceError,
    NonceSet};
use crate::provider::Provider;
use crate::response::{generic_verdict, specific_verdict, PositiveAssertion,
    PositiveAssertionView, ValidationError};
use crate::response_nonce::{now_millis, NONCE_MAX_AGE_MS};
use crate::text::same_text;
use crate::validate::{check_authentication_request, VerifyResponse};
use vstd::prelude::*;

verus! {

/// Where the login of a session stands.
#[derive(Debug, Clone, PartialEq, Eq)]
pub enum LoginSessionState {
    /// Nobody is logged in and no login is under way.
    Anonymous,
    /// The user was sent to the provider with this token.
    Redirected { nonce: AuthRequestNonce },
    /// The user is logged in.
    Authenticated { user_id: u64 },
}

/// The mathematical value of a [`LoginSessionState`].
pub enum LoginStateView {
    Anonymous,
    Redirected { nonce: Seq<char> },
    Authenticated { user_id: u64 },
}

impl View for LoginSessionState {
    type V = LoginStateView;

    open spec fn view(&self) -> LoginStateView {
        match self {
            LoginSessionState::Anonymous => LoginStateView::Anonymous,
            LoginSessionState::Redirected { nonce } => LoginStateView::Redirected { nonce: nonce@ },
            LoginSessionState::Authenticated { user_id } => LoginStateView::Authenticated {
                user_id: *user_id,
            },
        }
    }
}

/// Why a request is refused.
#[derive(Debug, Clone, Copy, PartialEq, Eq)]
pub enum Rejection {
    /// The token of the callback is not the token of the session.
    NonceMismatch,
    /// The set of tokens does not accept the token.
    Nonce(NonceError),
    /// The assertion breaks a rule.
    Assertion(ValidationError),
    /// The provider did not confirm the assertion.
    Forged,
    /// Nobody is logged in.
    NotLoggedIn,
}

impl Rejection {
    /// The class of HTTP status that the refusal is answered with. Every
    /// refusal is the client's fault.
    pub fn status(&self) -> (code: u16)
        ensures
            code == 400,
    {
        400
    }
}

/// Why the provider's verdict on an assertion could not be had. The
/// assertion is then neither confirmed nor refused.
#[derive(Debug, Clone, Copy, PartialEq, Eq)]
pub enum RemoteVerificationError {
    /// The request did not reach the provider, or no answer came back.
    Network,
    /// The provider's answer is no verdict in key-value form.
    Malformed,
}

/// Why a callback did not log the user in.
#[derive(Debug, Clone, Copy, PartialEq, Eq)]
pub enum Failure {
    /// The request is refused: the fault is the client's.
    Rejected(Rejection),
    /// The provider could not be asked: the fault is not the client's.
    Remote(RemoteVerificationError),
}

impl Failure {
    /// The HTTP status that the failure is answered with.
    pub open spec fn status_code(self) -> u16 {
        match self {
            Failure::Rejected(_) => 400,
            Failure::Remote(_) => 502,
        }
    }

    /// The HTTP status that the failure is answered with: 400 for a refusal,
    /// 502 where the provider could not be asked.
    pub fn status(&self) -> (code: u16)
        ensures
            code == self.status_code(),
    {
        match self {
            Failure::Rejected(r) => r.status(),
            Failure::Remote(_) => 502,
        }
    }
}

/// What to do when a login is started.
#[derive(Debug, Clone, PartialEq, Eq)]
pub enum StartAction {
    /// Send the user to the provider, with this token in `return_to`.
    Provider { nonce: AuthRequestNonce },
    /// The user is logged in already: send them home.
    Home,
    /// Refuse: the token of the login under way is unknown.
    Reject(Rejection),
}

/// The mathematical value of a [`StartAction`].
pub enum StartActionView {
    Provider { nonce: Seq<char> },
    Home,
    Reject(Rejection),
}

impl View for StartAction {
    type V = StartActionView;

    open spec fn view(&self) -> StartActionView {
        match self {
            StartAction::Provider { nonce } => StartActionView::Provider { nonce: nonce@ },
            StartAction::Home => StartActionView::Home,
            StartAction::Reject(r) => StartActionView::Reject(*r),
        }
    }
}

/// What to do when the provider sends the user back.
#[derive(Debug, Clone, PartialEq, Eq)]
pub enum CallbackAction {
    /// The user is logged in already: send them home.
    Home,
    /// No login is under way: send the user to where one starts.
    Login,
    /// Refuse the request.
    Reject(Rejection),
    /// The assertion is well formed and names the user `user_id`: send
    /// `request` to the provider and hand its verdict to
    /// [`finish_callback`].
    Verify { request: PositiveAssertion, user_id: u64 },
}

/// The mathematical value of a [`CallbackAction`].
pub enum CallbackActionView {
    Home,
    Login,
    Reject(Rejection),
    Verify { request: PositiveAssertionView, user_id: u64 },
}

impl View for CallbackAction {
    type V = CallbackActionView;

    open spec fn view(&self) -> CallbackActionView {
        match self {
            CallbackAction::Home => CallbackActionView::Home,
            CallbackAction::Login => CallbackActionView::Login,
            CallbackAction::Reject(r) => CallbackActionView::Reject(*r),
            CallbackAction::Verify { request, user_id } => CallbackActionView::Verify {
                request: request@,
                user_id: *user_id,
            },
        }
    }
}

/// Starting a login in the state `state`, with the fresh token `fresh` at
/// the time `now`: the next state, the action, and the set of tokens
/// afterwards.
pub open spec fn start_spec(
    state: LoginStateView,
    set: Seq<(Seq<char>, int)>,
    fresh: Seq<char>,
    now: int,
) -> (LoginStateView, StartActionView, Seq<(Seq<char>, int)>) {
    match state {
        LoginStateView::Anonymous => (
            LoginStateView::Redirected { nonce: fresh },
            StartActionView::Provider { nonce: fresh },
            put(set, fresh, now),
        ),
        LoginStateView::Redirected { nonce } => match replace_spec(set, nonce, fresh, now) {
            (Ok(_), after) => (
                LoginStateView::Redirected { nonce: fresh },
                StartActionView::Provider { nonce: fresh },
                after,
            ),
            (Err(e), after) => (state, StartActionView::Reject(Rejection::Nonce(e)), after),
        },
        LoginStateView::Authenticated { user_id } => (state, StartActionView::Home, set),
    }
}

/// The callback in the state `state` with the token `custom_nonce` and the
/// assertion `a` at the time `now`: the action, and the set of tokens
/// afterwards. The state of the session stays as it is until the provider
/// has confirmed the assertion.
pub open spec fn callback_spec(
    state: LoginStateView,
    set: Seq<(Seq<char>, int)>,
    custom_nonce: Seq<char>,
    a: PositiveAssertionView,
    endpoint: Seq<char>,
    now: int,
) -> (CallbackActionView, Seq<(Seq<char>, int)>) {
    match state {
        LoginStateView::Authenticated { user_id } => (CallbackActionView::Home, set),
        LoginStateView::Anonymous => (CallbackActionView::Login, set),
        LoginStateView::Redirected { nonce } => if custom_nonce != nonce {
            (CallbackActionView::Reject(Rejection::NonceMismatch), set)
        } else {
            let (verdict, after) = consume_spec(set, custom_nonce, now);
            match verdict {
                Err(e) => (CallbackActionView::Reject(Rejection::Nonce(e)), after),
                Ok(_) => match generic_verdict(a, endpoint) {
                    Err(e) => (CallbackActionView::Reject(Rejection::Assertion(e)), after),
                    Ok(_) => match specific_verdict(a, now, NONCE_MAX_AGE_MS as int) {
                        Err(e) => (CallbackActionView::Reject(Rejection::Assertion(e)), after),
                        Ok(user_id) => (
                            CallbackActionView::Verify {
                                request: PositiveAssertionView {
                                    mode: OPENID_MODE_CHECK_AUTHENTICATION@,
                                    ..a
                                },
                                user_id,
                            },
                            after,
                        ),
                    },
                },
            }
        },
    }
}

/// The state after the provider was asked for its verdict on the assertion
/// of the user `user_id`, and whether the user is logged in. `verdict` is
/// whether the provider called the assertion valid, or why it could not be
/// asked.
pub open spec fn finish_spec(
    state: LoginStateView,
    user_id: u64,
    verdict: Result<bool, RemoteVerificationError>,
) -> (LoginStateView, Result<u64, Failure>) {
    match verdict {
        Ok(true) => (LoginStateView::Authenticated { user_id }, Ok(user_id)),
        Ok(false) => (state, Err(Failure::Rejected(Rejection::Forged))),
        Err(e) => (state, Err(Failure::Remote(e))),
    }
}

/// What a provider's answer says for [`finish_spec`].
pub open spec fn verdict_view(verdict: Result<VerifyResponse, RemoteVerificationError>) -> Result<
    bool,
    RemoteVerificationError,
> {
    match verdict {
        Ok(v) => Ok(v@.is_valid),
        Err(e) => Err(e),
    }
}

/// The state after a logout, and the user that was logged out.
pub open spec fn logout_spec(state: LoginStateView) -> (LoginStateView, Result<u64, Rejection>) {
    match state {
        LoginStateView::Authenticated { user_id } => (LoginStateView::Anonymous, Ok(user_id)),
        _ => (state, Err(Rejection::NotLoggedIn)),
    }
}

/// Starts a login with the fresh token `fresh` at the time `now`.
pub fn start_login_with(
    state: LoginSessionState,
    nonces: &mut NonceSet,
    fresh: AuthRequestNonce,
    now: i64,
) -> (r: (LoginSessionState, StartAction))
    ensures
        (r.0@, r.1@, final(nonces)@) == start_spec(state@, old(nonces)@, fresh@, now as int),
        old(nonces).wf() ==> final(nonces).wf(),
{
    match state {
        LoginSessionState::Anonymous => {
            let issued = nonces.issue_with(fresh, now);
            let copy = issued.duplicate();
            (LoginSessionState::Redirected { nonce: issued }, StartAction::Provider { nonce: copy })
        },
        LoginSessionState::Redirected { nonce } => {
            match nonces.replace_with(nonce.as_str(), fresh, now) {
                Ok(issued) => {
                    let copy = issued.duplicate();
                    (
                        LoginSessionState::Redirected { nonce: issued },
                        StartAction::Provider { nonce: copy },
                    )
                },
                Err(e) => (
                    LoginSessionState::Redirected { nonce },
                    StartAction::Reject(Rejection::Nonce(e)),
                ),
            }
        },
        LoginSessionState::Authenticated { user_id } => (
            LoginSessionState::Authenticated { user_id },
            StartAction::Home,
        ),
    }
}

/// Starts a login with a random token at the time of the clock.
pub fn start_login(state: LoginSessionState, nonces: &mut NonceSet) -> (r: (
    LoginSessionState,
    StartAction,
))
    ensures
        exists|fresh: Seq<char>, now: i64|
            is_token(fresh) && (r.0@, r.1@, final(nonces)@) == start_spec(
                state@,
                old(nonces)@,
                fresh,
                now as int,
            ),
        old(nonces).wf() ==> final(nonces).wf(),
{
    let fresh = AuthRequestNonce::random();
    let now = now_millis();
    let ghost token = fresh@;
    let r = start_login_with(state, nonces, fresh, now);
    assert(is_token(token) && (r.0@, r.1@, nonces@) == start_spec(
        state@,
        old(nonces)@,
        token,
        now as int,
    ));
    r
}

/// Decides on a callback at the time `now`: what the session's state, the
/// token of the callback and the assertion call for.
pub fn begin_callback_at(
    state: &LoginSessionState,
    nonces: &mut NonceSet,
    custom_nonce: &str,
    assertion: &PositiveAssertion,
    provider: &Provider,
    now: i64,
) -> (action: CallbackAction)
    ensures
        (action@, final(nonces)@) == callback_spec(
            state@,
            old(nonces)@,
            custom_nonce@,
            assertion@,
            provider@.endpoint,
            now as int,
        ),
        old(nonces).wf() ==> final(nonces).wf(),
{
    let nonce = match state {
        LoginSessionState::Authenticated { user_id } => {
            return CallbackAction::Home;
        },
        LoginSessionState::Anonymous => {
            return CallbackAction::Login;
        },
        LoginSessionState::Redirected { nonce } => nonce,
    };
    if !same_text(custom_nonce, nonce.as_str()) {
        return CallbackAction::Reject(Rejection::NonceMismatch);
    }
    match nonces.validate_and_consume_at(custom_nonce, now) {
        Ok(_) => {},
        Err(e) => {
            return CallbackAction::Reject(Rejection::Nonce(e));
        },
    }
    match assertion.validate(provider) {
        Ok(_) => {},
        Err(e) => {
            return CallbackAction::Reject(Rejection::Assertion(e));
        },
    }
    let user_id = match assertion.validate_steam_at(now) {
        Ok(id) => id,
        Err(e) => {
            return CallbackAction::Reject(Rejection::Assertion(e));
        },
    };
    CallbackAction::Verify { request: check_authentication_request(assertion), user_id }
}

/// Decides on a callback at the time of the clock.
pub fn begin_callback(
    state: &LoginSessionState,
    nonces: &mut NonceSet,
    custom_nonce: &str,
    assertion: &PositiveAssertion,
    provider: &Provider,
) -> (action: CallbackAction)
    ensures
        exists|now: i64|
            (action@, final(nonces)@) == callback_spec(
                state@,
                old(nonces)@,
                custom_nonce@,
                assertion@,
                provider@.endpoint,
                now as int,
            ),
        old(nonces).wf() ==> final(nonces).wf(),
{
    let now = now_millis();
    begin_callback_at(state, nonces, custom_nonce, assertion, provider, now)
}

/// Ends a callback with the provider's verdict on the assertion of the user
/// `user_id`, or with the reason why there is none: the user is logged in
/// only if the provider confirmed the assertion.
pub fn finish_callback(
    state: LoginSessionState,
    user_id: u64,
    verdict: &Result<VerifyResponse, RemoteVerificationError>,
) -> (r: (LoginSessionState, Result<u64, Failure>))
    ensures
        (r.0@, r.1) == finish_spec(state@, user_id, verdict_view(*verdict)),
{
    match verdict {
        Ok(answer) => if answer.is_valid() {
            (LoginSessionState::Authenticated { user_id }, Ok(user_id))
        } else {
            (state, Err(Failure::Rejected(Rejection::Forged)))
        },
        Err(e) => (state, Err(Failure::Remote(*e))),
    }
}

/// Logs the user out.
pub fn logout(state: LoginSessionState) -> (r: (LoginSessionState, Result<u64, Rejection>))
    ensures
        (r.0@, r.1) == logout_spec(state@),
{
    match state {
        LoginSessionState::Authenticated { user_id } => (LoginSessionState::Anonymous, Ok(user_id)),
        other => (other, Err(Rejection::NotLoggedIn)),
    }
}

/// A callback whose token is not the token of the session is refused, and
/// the set of tokens stays as it is: the token of the session can still
/// come back.
pub proof fn lemma_mismatch_consumes_nothing(
    nonce: Seq<char>,
    set: Seq<(Seq<char>, int)>,
    custom_nonce: Seq<char>,
    a: PositiveAssertionView,
    endpoint: Seq<char>,
    now: int,
)
    requires
        custom_nonce != nonce,
    ensures
        callback_spec(
            LoginStateView::Redirected { nonce },
            set,
            custom_nonce,
            a,
            endpoint,
            now,
        ) == (CallbackActionView::Reject(Rejection::NonceMismatch), set),
{
}

/// Only a verdict of the provider makes a session authenticated. A verdict
/// that is not valid, or none at all, leaves the state as it was; the
/// answer is a server's error exactly where the provider could not be
/// asked.
pub proof fn lemma_only_the_provider_authenticates(
    state: LoginStateView,
    user_id: u64,
    verdict: Result<bool, RemoteVerificationError>,
)
    ensures
        verdict == Ok::<_, RemoteVerificationError>(true) ==> finish_spec(state, user_id, verdict)
            == (LoginStateView::Authenticated { user_id }, Ok::<_, Failure>(user_id)),
        verdict != Ok::<_, RemoteVerificationError>(true) ==> finish_spec(
            state,
            user_id,
            verdict,
        ).0 == state && finish_spec(state, user_id, verdict).1 is Err,
        finish_spec(state, user_id, verdict).1 matches Err(f) ==> (f.status_code() == 502
            <==> verdict is Err),
{
}

/// A callback asks to verify only an assertion that passed both sets of
/// rules, with a token that the set accepted.
pub proof fn lemma_verify_needs_valid_assertion(
    state: LoginStateView,
    set: Seq<(Seq<char>, int)>,
    custom_nonce: Seq<char>,
    a: PositiveAssertionView,
    endpoint: Seq<char>,
    now: int,
)
    requires
        callback_spec(state, set, custom_nonce, a, endpoint, now).0 is Verify,
    ensures
        state == (LoginStateView::Redirected { nonce: custom_nonce }),
        consume_spec(set, custom_nonce, now).0 is Ok,
        generic_verdict(a, endpoint) is Ok,
        specific_verdict(a, now, NONCE_MAX_AGE_MS as int) is Ok,
{
}

} // verus!
