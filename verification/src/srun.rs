//! The login session: one pass from a fresh challenge to a result.
//!
//! The session does no input or output. It is a state machine: `step` takes
//! what happened (an `Event`) and says what to do next (an `Action`). Whoever
//! runs the session performs the action and comes back with the event. The
//! states follow the protocol:
//!
//! `Idle`, `ChallengeRequested`, `ChallengeReceived`, `CredentialsEncoded`,
//! `ChecksumComputed`, `LoginSubmitted`, and then one of `Succeeded`,
//! `Rejected`, `Faulted`.
//!
//! Nothing is tried twice: an attempt that failed stays failed, and a new
//! attempt is a new session with a new challenge.

use crate::checksum::{
    checksum_of, login_checksum, login_fields, password_for_checksum, password_for_request,
    password_param_text, password_slot, FIELD_N, FIELD_TYPE,
};
use crate::digest::HashAlgorithm;
use crate::outcome::{
    Failure, FailureView, LoginResult, LoginResultView, Rejection, RejectionView, TransportError,
    TransportErrorView,
};
use crate::reply::{
    challenge_in, login_reply_in, read_challenge, read_login_reply, Challenge, ChallengeView,
    LoginReply, LoginReplyView, STATUS_OK,
};
use crate::text::{bytes_of, chars_of, copy_text, same_text};
use crate::user::{User, UserView};
use crate::xencode::{credential_blob, param_i, MAX_FIELD_BYTES};
use crate::LoginOptions;
use vstd::prelude::*;
use vstd::string::{StringExecFns, StringSliceAdditionalSpecFns};

verus! {

/// Where the challenge is asked for, below the server's address.
pub const CHALLENGE_PATH: &'static str = "cgi-bin/get_challenge";

/// Where the login request goes, below the server's address.
pub const LOGIN_PATH: &'static str = "cgi-bin/srun_portal";

/// The access point that is named where neither the caller nor the server
/// names one.
pub const DEFAULT_AC_ID: &'static str = "1";

/// The callback name that requests carry.
pub const DEFAULT_CALLBACK: &'static str = "jsonp";

/// The cipher's number of cycles.
pub const DEFAULT_CIPHER_ROUNDS: u32 = 32;

/// Seconds that a request may take.
pub const DEFAULT_REQUEST_TIMEOUT_SECS: u64 = 10;

/// What the probe connects to.
pub const DEFAULT_PROBE_TARGET: &'static str = "baidu.com:80";

/// Seconds that the probe may take.
pub const DEFAULT_PROBE_TIMEOUT_SECS: u64 = 3;

/// What a deployment fixes: the server, the constants of the encoding, and
/// the time limits.
#[derive(Debug, Clone)]
pub struct Config {
    pub server: String,
    pub ac_id: String,
    pub callback: String,
    pub cipher_rounds: u32,
    pub hash: HashAlgorithm,
    pub request_timeout_secs: u64,
    pub probe_target: String,
    pub probe_timeout_secs: u64,
}

/// A `Config` as plain values.
pub struct ConfigView {
    pub server: Seq<char>,
    pub ac_id: Seq<char>,
    pub callback: Seq<char>,
    pub cipher_rounds: u32,
    pub hash: HashAlgorithm,
    pub request_timeout_secs: u64,
    pub probe_target: Seq<char>,
    pub probe_timeout_secs: u64,
}

impl View for Config {
    type V = ConfigView;

    open spec fn view(&self) -> ConfigView {
        ConfigView {
            server: self.server@,
            ac_id: self.ac_id@,
            callback: self.callback@,
            cipher_rounds: self.cipher_rounds,
            hash: self.hash,
            request_timeout_secs: self.request_timeout_secs,
            probe_target: self.probe_target@,
            probe_timeout_secs: self.probe_timeout_secs,
        }
    }
}

/// The configuration for a server with every other constant at its default.
pub open spec fn default_config(server: Seq<char>) -> ConfigView {
    ConfigView {
        server,
        ac_id: DEFAULT_AC_ID@,
        callback: DEFAULT_CALLBACK@,
        cipher_rounds: DEFAULT_CIPHER_ROUNDS,
        hash: HashAlgorithm::Sha1,
        request_timeout_secs: DEFAULT_REQUEST_TIMEOUT_SECS,
        probe_target: DEFAULT_PROBE_TARGET@,
        probe_timeout_secs: DEFAULT_PROBE_TIMEOUT_SECS,
    }
}

impl Config {
    /// The configuration for `server`, which is the address that the two
    /// paths are put behind, with every other constant at its default.
    pub fn new(server: &str) -> (config: Config)
        ensures
            config@ == default_config(server@),
    {
        Config {
            server: server.to_owned(),
            ac_id: DEFAULT_AC_ID.to_owned(),
            callback: DEFAULT_CALLBACK.to_owned(),
            cipher_rounds: DEFAULT_CIPHER_ROUNDS,
            hash: HashAlgorithm::Sha1,
            request_timeout_secs: DEFAULT_REQUEST_TIMEOUT_SECS,
            probe_target: DEFAULT_PROBE_TARGET.to_owned(),
            probe_timeout_secs: DEFAULT_PROBE_TIMEOUT_SECS,
        }
    }

    /// A copy of this configuration.
    pub fn duplicate(&self) -> (r: Config)
        ensures
            r@ == self@,
    {
        Config {
            server: self.server.clone(),
            ac_id: self.ac_id.clone(),
            callback: self.callback.clone(),
            cipher_rounds: self.cipher_rounds,
            hash: self.hash,
            request_timeout_secs: self.request_timeout_secs,
            probe_target: self.probe_target.clone(),
            probe_timeout_secs: self.probe_timeout_secs,
        }
    }
}

/// What the connectivity probe found: the target was reached, after so many
/// milliseconds and from this local address where it is known, or it was
/// not reached in time.
#[derive(Debug, Clone, PartialEq, Eq)]
pub enum ProbeReport {
    Reached { elapsed_ms: u16, local_ip: Option<String> },
    Unreachable,
}

/// A `ProbeReport` as plain values.
pub enum ProbeReportView {
    Reached { elapsed_ms: u16, local_ip: Option<Seq<char>> },
    Unreachable,
}

impl View for ProbeReport {
    type V = ProbeReportView;

    open spec fn view(&self) -> ProbeReportView {
        match self {
            ProbeReport::Reached { elapsed_ms, local_ip } => ProbeReportView::Reached {
                elapsed_ms: *elapsed_ms,
                local_ip: local_ip.deep_view(),
            },
            ProbeReport::Unreachable => ProbeReportView::Unreachable,
        }
    }
}

/// A request for the transport: an address, the query parameters in order,
/// and the seconds it may take.
#[derive(Debug, Clone, PartialEq, Eq)]
pub struct Request {
    pub url: String,
    pub query: Vec<(String, String)>,
    pub timeout_secs: u64,
}

/// A `Request` as plain values.
pub struct RequestView {
    pub url: Seq<char>,
    pub query: Seq<(Seq<char>, Seq<char>)>,
    pub timeout_secs: u64,
}

impl View for Request {
    type V = RequestView;

    open spec fn view(&self) -> RequestView {
        RequestView {
            url: self.url@,
            query: self.query.deep_view(),
            timeout_secs: self.timeout_secs,
        }
    }
}

/// What happened since the last step.
#[derive(Debug, PartialEq, Eq)]
pub enum Event {
    /// The caller asks for a login.
    Start,
    /// The probe has come back.
    Probed(ProbeReport),
    /// The challenge request has come back: a response body, or a failure.
    ChallengeReply(Result<Vec<u8>, TransportError>),
    /// The login request has come back: a response body, or a failure.
    LoginReply(Result<Vec<u8>, TransportError>),
    /// Nothing had to be done outside.
    Proceed,
}

/// An `Event` as plain values.
pub enum EventView {
    Start,
    Probed(ProbeReportView),
    ChallengeReply(Result<Seq<u8>, TransportErrorView>),
    LoginReply(Result<Seq<u8>, TransportErrorView>),
    Proceed,
}

impl View for Event {
    type V = EventView;

    open spec fn view(&self) -> EventView {
        match self {
            Event::Start => EventView::Start,
            Event::Probed(report) => EventView::Probed(report@),
            Event::ChallengeReply(Ok(body)) => EventView::ChallengeReply(Ok(body@)),
            Event::ChallengeReply(Err(e)) => EventView::ChallengeReply(Err(e@)),
            Event::LoginReply(Ok(body)) => EventView::LoginReply(Ok(body@)),
            Event::LoginReply(Err(e)) => EventView::LoginReply(Err(e@)),
            Event::Proceed => EventView::Proceed,
        }
    }
}

/// What to do next.
#[derive(Debug, Clone, PartialEq, Eq)]
pub enum Action {
    /// Run the connectivity probe and come back with `Event::Probed`.
    Probe { target: String, timeout_secs: u64 },
    /// Send the challenge request and come back with `Event::ChallengeReply`.
    FetchChallenge(Request),
    /// Send the login request and come back with `Event::LoginReply`.
    SubmitLogin(Request),
    /// Come back with `Event::Proceed`.
    Continue,
    /// The attempt is over, with this result.
    Finish(LoginResult),
}

/// An `Action` as plain values.
pub enum ActionView {
    Probe { target: Seq<char>, timeout_secs: u64 },
    FetchChallenge(RequestView),
    SubmitLogin(RequestView),
    Continue,
    Finish(LoginResultView),
}

impl View for Action {
    type V = ActionView;

    open spec fn view(&self) -> ActionView {
        match self {
            Action::Probe { target, timeout_secs } => ActionView::Probe {
                target: target@,
                timeout_secs: *timeout_secs,
            },
            Action::FetchChallenge(request) => ActionView::FetchChallenge(request@),
            Action::SubmitLogin(request) => ActionView::SubmitLogin(request@),
            Action::Continue => ActionView::Continue,
            Action::Finish(result) => ActionView::Finish(result@),
        }
    }
}

/// Where a session stands, with what it has gathered so far.
#[derive(Debug, Clone, PartialEq, Eq)]
pub enum State {
    Idle,
    ChallengeRequested { hint: String },
    ChallengeReceived { token: String, ac_id: String, ip: String },
    CredentialsEncoded { token: String, ac_id: String, ip: String, blob: String },
    ChecksumComputed { token: String, ac_id: String, ip: String, blob: String, checksum: String },
    LoginSubmitted { ip: String },
    Succeeded,
    Rejected(Rejection),
    Faulted(Failure),
}

/// A `State` as plain values.
pub enum StateView {
    Idle,
    ChallengeRequested { hint: Seq<char> },
    ChallengeReceived { token: Seq<char>, ac_id: Seq<char>, ip: Seq<char> },
    CredentialsEncoded { token: Seq<char>, ac_id: Seq<char>, ip: Seq<char>, blob: Seq<char> },
    ChecksumComputed {
        token: Seq<char>,
        ac_id: Seq<char>,
        ip: Seq<char>,
        blob: Seq<char>,
        checksum: Seq<char>,
    },
    LoginSubmitted { ip: Seq<char> },
    Succeeded,
    Rejected(RejectionView),
    Faulted(FailureView),
}

impl View for State {
    type V = StateView;

    open spec fn view(&self) -> StateView {
        match self {
            State::Idle => StateView::Idle,
            State::ChallengeRequested { hint } => StateView::ChallengeRequested { hint: hint@ },
            State::ChallengeReceived { token, ac_id, ip } => StateView::ChallengeReceived {
                token: token@,
                ac_id: ac_id@,
                ip: ip@,
            },
            State::CredentialsEncoded { token, ac_id, ip, blob } => StateView::CredentialsEncoded {
                token: token@,
                ac_id: ac_id@,
                ip: ip@,
                blob: blob@,
            },
            State::ChecksumComputed {
                token,
                ac_id,
                ip,
                blob,
                checksum,
            } => StateView::ChecksumComputed {
                token: token@,
                ac_id: ac_id@,
                ip: ip@,
                blob: blob@,
                checksum: checksum@,
            },
            State::LoginSubmitted { ip } => StateView::LoginSubmitted { ip: ip@ },
            State::Succeeded => StateView::Succeeded,
            State::Rejected(r) => StateView::Rejected(r@),
            State::Faulted(f) => StateView::Faulted(f@),
        }
    }
}

/// A login session: the configuration, the credentials, the options, and
/// where the attempt stands.
#[derive(Debug, Clone)]
pub struct SrunClient {
    pub config: Config,
    pub user: User,
    pub options: LoginOptions,
    pub state: State,
}

/// A `SrunClient` as plain values.
pub struct ClientView {
    pub config: ConfigView,
    pub user: UserView,
    pub options: LoginOptions,
    pub state: StateView,
}

impl View for SrunClient {
    type V = ClientView;

    open spec fn view(&self) -> ClientView {
        ClientView {
            config: self.config@,
            user: self.user@,
            options: self.options,
            state: self.state@,
        }
    }
}

/// The address that the caller named, or the empty text.
pub open spec fn caller_ip(user: UserView) -> Seq<char> {
    match user.ip {
        Some(ip) => ip,
        None => Seq::<char>::empty(),
    }
}

/// Whether a field is short enough to be encoded.
pub open spec fn fits(field: Seq<char>) -> bool {
    bytes_of(field).len() <= MAX_FIELD_BYTES
}

/// Whether an attempt can be made for these credentials: there is a name,
/// and no field is too long.
pub open spec fn valid_user(user: UserView) -> bool {
    &&& user.username.len() > 0
    &&& fits(user.username)
    &&& fits(user.password)
    &&& fits(caller_ip(user))
}

/// Whether the probe runs before the challenge is asked for: the caller
/// wants the network tested first, or wants the address found and named
/// none.
pub open spec fn needs_probe(options: LoginOptions, user: UserView) -> bool {
    options.test_before_login || (options.detect_ip && caller_ip(user).len() == 0)
}

/// The address that the challenge request names: the caller's, else, where
/// the address is to be found, the local address that the probe saw, else
/// none.
pub open spec fn hint_after_probe(
    user: UserView,
    options: LoginOptions,
    report: ProbeReportView,
) -> Seq<char> {
    if caller_ip(user).len() > 0 {
        caller_ip(user)
    } else {
        match report {
            ProbeReportView::Reached { elapsed_ms, local_ip: Some(ip) } => if options.detect_ip {
                ip
            } else {
                Seq::<char>::empty()
            },
            _ => Seq::<char>::empty(),
        }
    }
}

/// The address that is logged in: the one that the challenge request named,
/// else, where the address is to be found, the one that the server saw,
/// else none.
pub open spec fn resolved_ip(
    hint: Seq<char>,
    options: LoginOptions,
    challenge: ChallengeView,
) -> Seq<char> {
    if hint.len() > 0 {
        hint
    } else {
        match challenge.client_ip {
            Some(ip) => if options.detect_ip {
                ip
            } else {
                Seq::<char>::empty()
            },
            None => Seq::<char>::empty(),
        }
    }
}

/// The access point that is named: the server's, where the challenge came
/// with one, else the configured one.
pub open spec fn resolved_ac_id(config: ConfigView, challenge: ChallengeView) -> Seq<char> {
    match challenge.ac_id {
        Some(id) => id,
        None => config.ac_id,
    }
}

/// The challenge request.
pub open spec fn challenge_request(
    config: ConfigView,
    username: Seq<char>,
    hint: Seq<char>,
) -> RequestView {
    RequestView {
        url: config.server + CHALLENGE_PATH@,
        query: seq![("callback"@, config.callback), ("username"@, username), ("ip"@, hint)],
        timeout_secs: config.request_timeout_secs,
    }
}

/// The login request.
pub open spec fn login_request(
    config: ConfigView,
    username: Seq<char>,
    password: Seq<char>,
    ac_id: Seq<char>,
    ip: Seq<char>,
    blob: Seq<char>,
    checksum: Seq<char>,
) -> RequestView {
    RequestView {
        url: config.server + LOGIN_PATH@,
        query: seq![
            ("callback"@, config.callback),
            ("action"@, "login"@),
            ("username"@, username),
            ("password"@, password),
            ("ac_id"@, ac_id),
            ("ip"@, ip),
            ("info"@, blob),
            ("chksum"@, checksum),
            ("n"@, FIELD_N@),
            ("type"@, FIELD_TYPE@),
        ],
        timeout_secs: config.request_timeout_secs,
    }
}

/// The credential blob of an attempt, as text.
pub open spec fn blob_text(
    user: UserView,
    ac_id: Seq<char>,
    ip: Seq<char>,
    token: Seq<char>,
    rounds: u32,
) -> Seq<char> {
    chars_of(
        credential_blob(
            bytes_of(user.username),
            bytes_of(user.password),
            bytes_of(ip),
            bytes_of(ac_id),
            bytes_of(token),
            rounds as nat,
        ),
    )
}

/// The checksum of an attempt, as text.
pub open spec fn checksum_text(
    hash: HashAlgorithm,
    user: UserView,
    ac_id: Seq<char>,
    ip: Seq<char>,
    token: Seq<char>,
    blob: Seq<char>,
) -> Seq<char> {
    chars_of(
        checksum_of(
            hash,
            login_fields(
                bytes_of(token),
                bytes_of(user.username),
                password_slot(bytes_of(user.password), bytes_of(token)),
                bytes_of(ac_id),
                bytes_of(ip),
                bytes_of(blob),
            ),
        ),
    )
}

/// What a login reply means for an attempt that asked for `ip`. A status of
/// `ok` is a success, unless the session is strict about the address and
/// the server reports another one than was asked for: that is a rejection
/// of its own kind. Any other reply with a code or a message is the
/// server's rejection, with both as they came. A reply with none of these
/// is malformed.
pub open spec fn verdict(reply: LoginReplyView, ip: Seq<char>, strict_bind: bool)
    -> LoginResultView {
    if reply.status == Some(STATUS_OK@) {
        match reply.ip {
            Some(reported) => if strict_bind && reported != ip {
                LoginResultView::Rejected(RejectionView::IpMismatch { requested: ip, reported })
            } else {
                LoginResultView::Success
            },
            None => LoginResultView::Success,
        }
    } else if reply.code is Some || reply.message is Some {
        LoginResultView::Rejected(
            RejectionView::Server { code: reply.code, message: reply.message },
        )
    } else {
        LoginResultView::Failed(FailureView::MalformedResponse)
    }
}

/// The state that a result ends in, and the action that hands it out.
pub open spec fn ended(result: LoginResultView) -> (StateView, ActionView) {
    (
        match result {
            LoginResultView::Success => StateView::Succeeded,
            LoginResultView::Rejected(r) => StateView::Rejected(r),
            LoginResultView::Failed(f) => StateView::Faulted(f),
        },
        ActionView::Finish(result),
    )
}

/// The end by a failure on this side.
pub open spec fn faulted(failure: FailureView) -> (StateView, ActionView) {
    ended(LoginResultView::Failed(failure))
}

/// The result that a state holds, where the attempt is over.
pub open spec fn result_of(state: StateView) -> Option<LoginResultView> {
    match state {
        StateView::Succeeded => Some(LoginResultView::Success),
        StateView::Rejected(r) => Some(LoginResultView::Rejected(r)),
        StateView::Faulted(f) => Some(LoginResultView::Failed(f)),
        _ => None,
    }
}

/// What an idle session does.
pub open spec fn next_from_idle(client: ClientView, event: EventView) -> (StateView, ActionView) {
    match event {
        EventView::Start => if !valid_user(client.user) {
            faulted(FailureView::Precondition)
        } else if needs_probe(client.options, client.user) {
            (
                StateView::Idle,
                ActionView::Probe {
                    target: client.config.probe_target,
                    timeout_secs: client.config.probe_timeout_secs,
                },
            )
        } else {
            (
                StateView::ChallengeRequested { hint: caller_ip(client.user) },
                ActionView::FetchChallenge(
                    challenge_request(client.config, client.user.username, caller_ip(client.user)),
                ),
            )
        },
        EventView::Probed(report) => if !valid_user(client.user) || !needs_probe(
            client.options,
            client.user,
        ) {
            faulted(FailureView::Precondition)
        } else if client.options.test_before_login && report is Reached {
            ended(LoginResultView::Success)
        } else {
            let hint = hint_after_probe(client.user, client.options, report);
            (
                StateView::ChallengeRequested { hint },
                ActionView::FetchChallenge(
                    challenge_request(client.config, client.user.username, hint),
                ),
            )
        },
        _ => faulted(FailureView::Precondition),
    }
}

/// What a session does when the challenge request has come back.
pub open spec fn next_from_challenge_requested(
    client: ClientView,
    hint: Seq<char>,
    event: EventView,
) -> (StateView, ActionView) {
    match event {
        EventView::ChallengeReply(Err(e)) => faulted(FailureView::Transport(e)),
        EventView::ChallengeReply(Ok(body)) => match challenge_in(body) {
            Some(challenge) => (
                StateView::ChallengeReceived {
                    token: challenge.token,
                    ac_id: resolved_ac_id(client.config, challenge),
                    ip: resolved_ip(hint, client.options, challenge),
                },
                ActionView::Continue,
            ),
            None => faulted(FailureView::MalformedResponse),
        },
        _ => faulted(FailureView::Precondition),
    }
}

/// The step of a session: the state that follows `client.state` on `event`,
/// and the action to take.
///
/// An event that the state does not wait for ends the attempt with
/// `Failure::Precondition`. A session that is over stays as it is and hands
/// out its result again.
pub open spec fn next(client: ClientView, event: EventView) -> (StateView, ActionView) {
    match client.state {
        StateView::Idle => next_from_idle(client, event),
        StateView::ChallengeRequested { hint } => next_from_challenge_requested(
            client,
            hint,
            event,
        ),
        StateView::ChallengeReceived { token, ac_id, ip } => if event is Proceed && valid_user(
            client.user,
        ) && fits(ac_id) && fits(ip) {
            (
                StateView::CredentialsEncoded {
                    token,
                    ac_id,
                    ip,
                    blob: blob_text(client.user, ac_id, ip, token, client.config.cipher_rounds),
                },
                ActionView::Continue,
            )
        } else {
            faulted(FailureView::Precondition)
        },
        StateView::CredentialsEncoded { token, ac_id, ip, blob } => if event is Proceed {
            (
                StateView::ChecksumComputed {
                    token,
                    ac_id,
                    ip,
                    blob,
                    checksum: checksum_text(client.config.hash, client.user, ac_id, ip, token, blob),
                },
                ActionView::Continue,
            )
        } else {
            faulted(FailureView::Precondition)
        },
        StateView::ChecksumComputed { token, ac_id, ip, blob, checksum } => if event is Proceed {
            (
                StateView::LoginSubmitted { ip },
                ActionView::SubmitLogin(
                    login_request(
                        client.config,
                        client.user.username,
                        password_param_text(client.user.password, token),
                        ac_id,
                        ip,
                        blob,
                        checksum,
                    ),
                ),
            )
        } else {
            faulted(FailureView::Precondition)
        },
        StateView::LoginSubmitted { ip } => match event {
            EventView::LoginReply(Err(e)) => faulted(FailureView::Transport(e)),
            EventView::LoginReply(Ok(body)) => match login_reply_in(body) {
                Some(reply) => ended(verdict(reply, ip, client.options.strict_bind)),
                None => faulted(FailureView::MalformedResponse),
            },
            _ => faulted(FailureView::Precondition),
        },
        StateView::Succeeded => ended(LoginResultView::Success),
        StateView::Rejected(r) => ended(LoginResultView::Rejected(r)),
        StateView::Faulted(f) => ended(LoginResultView::Failed(f)),
    }
}


fn fits_in(field: &str) -> (r: bool)
    ensures
        r == fits(field@),
{
    field.as_bytes().len() <= MAX_FIELD_BYTES
}

fn text_or_empty(text: &Option<String>) -> (r: String)
    ensures
        r@ == match text.deep_view() {
            Some(t) => t,
            None => Seq::<char>::empty(),
        },
{
    match text {
        Some(t) => t.clone(),
        None => String::new(),
    }
}

fn pair(name: &str, value: &str) -> (r: (String, String))
    ensures
        r.deep_view() == (name@, value@),
{
    (name.to_owned(), value.to_owned())
}

fn end_with(result: LoginResult) -> (r: (State, Action))
    ensures
        (r.0@, r.1@) == ended(result@),
{
    let state = match &result {
        LoginResult::Success => State::Succeeded,
        LoginResult::Rejected(r) => State::Rejected(r.duplicate()),
        LoginResult::Failed(f) => State::Faulted(f.duplicate()),
    };
    (state, Action::Finish(result))
}

fn fault(failure: Failure) -> (r: (State, Action))
    ensures
        (r.0@, r.1@) == faulted(failure@),
{
    end_with(LoginResult::Failed(failure))
}

/// Says what a login reply means for an attempt that asked for `ip`.
pub fn judge(reply: &LoginReply, ip: &str, strict_bind: bool) -> (result: LoginResult)
    ensures
        result@ == verdict(reply@, ip@, strict_bind),
{
    let ok = match &reply.status {
        Some(status) => same_text(status.as_str(), STATUS_OK),
        None => false,
    };
    if ok {
        match &reply.ip {
            Some(reported) => {
                if strict_bind && !same_text(reported.as_str(), ip) {
                    LoginResult::Rejected(
                        Rejection::IpMismatch {
                            requested: ip.to_owned(),
                            reported: reported.clone(),
                        },
                    )
                } else {
                    LoginResult::Success
                }
            },
            None => LoginResult::Success,
        }
    } else if reply.code.is_some() || reply.message.is_some() {
        LoginResult::Rejected(
            Rejection::Server { code: copy_text(&reply.code), message: copy_text(&reply.message) },
        )
    } else {
        LoginResult::Failed(Failure::MalformedResponse)
    }
}

/// Settles what an attempt uses once the challenge is there: the token, the
/// access point and the address.
pub fn settle(config: &Config, options: &LoginOptions, hint: &str, challenge: Challenge) -> (r:
    State)
    ensures
        r@ == (StateView::ChallengeReceived {
            token: challenge@.token,
            ac_id: resolved_ac_id(config@, challenge@),
            ip: resolved_ip(hint@, *options, challenge@),
        }),
{
    let ac_id = match &challenge.ac_id {
        Some(id) => id.clone(),
        None => config.ac_id.clone(),
    };
    let ip = if !hint.is_empty() {
        hint.to_owned()
    } else {
        match &challenge.client_ip {
            Some(seen) => if options.detect_ip {
                seen.clone()
            } else {
                String::new()
            },
            None => String::new(),
        }
    };
    State::ChallengeReceived { token: challenge.token, ac_id, ip }
}

impl SrunClient {
    /// A session that has not started.
    pub fn new(config: Config, user: User, options: LoginOptions) -> (client: SrunClient)
        ensures
            client@ == (ClientView {
                config: config@,
                user: user@,
                options,
                state: StateView::Idle,
            }),
    {
        SrunClient { config, user, options, state: State::Idle }
    }

    /// A session for `user` at `server`, with every constant at its default
    /// and every option off.
    pub fn new_from_user(server: &str, user: User) -> (client: SrunClient)
        ensures
            client@ == (ClientView {
                config: default_config(server@),
                user: user@,
                options: LoginOptions {
                    detect_ip: false,
                    strict_bind: false,
                    test_before_login: false,
                },
                state: StateView::Idle,
            }),
    {
        SrunClient {
            config: Config::new(server),
            user,
            options: LoginOptions { detect_ip: false, strict_bind: false, test_before_login: false },
            state: State::Idle,
        }
    }

    /// The same session with address detection switched on or off.
    pub fn set_detect_ip(self, detect_ip: bool) -> (client: SrunClient)
        ensures
            client@ == (ClientView {
                options: LoginOptions { detect_ip, ..self.options },
                ..self@
            }),
    {
        let mut client = self;
        client.options.detect_ip = detect_ip;
        client
    }

    /// The same session with strictness about the address switched on or
    /// off.
    pub fn set_strict_bind(self, strict_bind: bool) -> (client: SrunClient)
        ensures
            client@ == (ClientView {
                options: LoginOptions { strict_bind, ..self.options },
                ..self@
            }),
    {
        let mut client = self;
        client.options.strict_bind = strict_bind;
        client
    }

    /// The same session with the test of the network before the login
    /// switched on or off.
    pub fn set_test_before_login(self, test_before_login: bool) -> (client: SrunClient)
        ensures
            client@ == (ClientView {
                options: LoginOptions { test_before_login, ..self.options },
                ..self@
            }),
    {
        let mut client = self;
        client.options.test_before_login = test_before_login;
        client
    }

    /// The result, once the attempt is over.
    pub fn result(&self) -> (r: Option<LoginResult>)
        ensures
            match r {
                Some(result) => result_of(self.state@) == Some(result@),
                None => result_of(self.state@) is None,
            },
    {
        match &self.state {
            State::Succeeded => Some(LoginResult::Success),
            State::Rejected(r) => Some(LoginResult::Rejected(r.duplicate())),
            State::Faulted(f) => Some(LoginResult::Failed(f.duplicate())),
            _ => None,
        }
    }

    fn user_is_valid(&self) -> (r: bool)
        ensures
            r == valid_user(self.user@),
    {
        let ip_fits = match &self.user.ip {
            Some(ip) => fits_in(ip.as_str()),
            None => {
                proof {
                    reveal_with_fuel(vstd::utf8::encode_utf8, 1);
                }
                true
            },
        };
        !self.user.username.as_str().is_empty() && fits_in(self.user.username.as_str()) && fits_in(
            self.user.password.as_str(),
        ) && ip_fits
    }

    fn wants_probe(&self) -> (r: bool)
        ensures
            r == needs_probe(self.options, self.user@),
    {
        let named = match &self.user.ip {
            Some(ip) => !ip.as_str().is_empty(),
            None => false,
        };
        self.options.test_before_login || (self.options.detect_ip && !named)
    }

    fn make_challenge_request(&self, hint: &str) -> (r: Request)
        ensures
            r@ == challenge_request(self.config@, self.user.username@, hint@),
    {
        let mut url = self.config.server.clone();
        url.append(CHALLENGE_PATH);
        let mut query: Vec<(String, String)> = Vec::new();
        query.push(pair("callback", self.config.callback.as_str()));
        query.push(pair("username", self.user.username.as_str()));
        query.push(pair("ip", hint));
        assert(query.deep_view() =~= challenge_request(
            self.config@,
            self.user.username@,
            hint@,
        ).query);
        Request { url, query, timeout_secs: self.config.request_timeout_secs }
    }

    fn make_login_request(
        &self,
        password: &str,
        ac_id: &str,
        ip: &str,
        blob: &str,
        checksum: &str,
    ) -> (r: Request)
        ensures
            r@ == login_request(
                self.config@,
                self.user.username@,
                password@,
                ac_id@,
                ip@,
                blob@,
                checksum@,
            ),
    {
        let mut url = self.config.server.clone();
        url.append(LOGIN_PATH);
        let mut query: Vec<(String, String)> = Vec::new();
        query.push(pair("callback", self.config.callback.as_str()));
        query.push(pair("action", "login"));
        query.push(pair("username", self.user.username.as_str()));
        query.push(pair("password", password));
        query.push(pair("ac_id", ac_id));
        query.push(pair("ip", ip));
        query.push(pair("info", blob));
        query.push(pair("chksum", checksum));
        query.push(pair("n", FIELD_N));
        query.push(pair("type", FIELD_TYPE));
        assert(query.deep_view() =~= login_request(
            self.config@,
            self.user.username@,
            password@,
            ac_id@,
            ip@,
            blob@,
            checksum@,
        ).query);
        Request { url, query, timeout_secs: self.config.request_timeout_secs }
    }

    fn from_idle(&self, event: Event) -> (r: (State, Action))
        requires
            self.state@ is Idle,
        ensures
            (r.0@, r.1@) == next(self@, event@),
    {
        match event {
            Event::Start => {
                if !self.user_is_valid() {
                    fault(Failure::Precondition)
                } else if self.wants_probe() {
                    (
                        State::Idle,
                        Action::Probe {
                            target: self.config.probe_target.clone(),
                            timeout_secs: self.config.probe_timeout_secs,
                        },
                    )
                } else {
                    let hint = text_or_empty(&self.user.ip);
                    let request = self.make_challenge_request(hint.as_str());
                    (State::ChallengeRequested { hint }, Action::FetchChallenge(request))
                }
            },
            Event::Probed(report) => {
                if !self.user_is_valid() || !self.wants_probe() {
                    return fault(Failure::Precondition);
                }
                let named = text_or_empty(&self.user.ip);
                match report {
                    ProbeReport::Reached { elapsed_ms, local_ip } => {
                        if self.options.test_before_login {
                            end_with(LoginResult::Success)
                        } else {
                            let hint = if !named.as_str().is_empty() {
                                named
                            } else {
                                match local_ip {
                                    Some(ip) => if self.options.detect_ip {
                                        ip
                                    } else {
                                        String::new()
                                    },
                                    None => String::new(),
                                }
                            };
                            let request = self.make_challenge_request(hint.as_str());
                            (State::ChallengeRequested { hint }, Action::FetchChallenge(request))
                        }
                    },
                    ProbeReport::Unreachable => {
                        let hint = if !named.as_str().is_empty() {
                            named
                        } else {
                            String::new()
                        };
                        let request = self.make_challenge_request(hint.as_str());
                        (State::ChallengeRequested { hint }, Action::FetchChallenge(request))
                    },
                }
            },
            _ => fault(Failure::Precondition),
        }
    }

    fn from_challenge_requested(&self, hint: &str, event: Event) -> (r: (State, Action))
        requires
            self.state@ == (StateView::ChallengeRequested { hint: hint@ }),
        ensures
            (r.0@, r.1@) == next(self@, event@),
    {
        match event {
            Event::ChallengeReply(Err(e)) => fault(Failure::Transport(e)),
            Event::ChallengeReply(Ok(body)) => match read_challenge(body.as_slice()) {
                Some(challenge) => (
                    settle(&self.config, &self.options, hint, challenge),
                    Action::Continue,
                ),
                None => fault(Failure::MalformedResponse),
            },
            _ => fault(Failure::Precondition),
        }
    }

    fn from_login_submitted(&self, ip: &str, event: Event) -> (r: (State, Action))
        requires
            self.state@ == (StateView::LoginSubmitted { ip: ip@ }),
        ensures
            (r.0@, r.1@) == next(self@, event@),
    {
        match event {
            Event::LoginReply(Err(e)) => fault(Failure::Transport(e)),
            Event::LoginReply(Ok(body)) => match read_login_reply(body.as_slice()) {
                Some(reply) => end_with(judge(&reply, ip, self.options.strict_bind)),
                None => fault(Failure::MalformedResponse),
            },
            _ => fault(Failure::Precondition),
        }
    }

    #[verifier::rlimit(50)]
    fn advance(&self, event: Event) -> (r: (State, Action))
        ensures
            (r.0@, r.1@) == next(self@, event@),
    {
        match &self.state {
            State::Idle => self.from_idle(event),
            State::ChallengeRequested { hint } => self.from_challenge_requested(
                hint.as_str(),
                event,
            ),
            State::ChallengeReceived { token, ac_id, ip } => {
                let proceed = match event {
                    Event::Proceed => true,
                    _ => false,
                };
                if proceed && self.user_is_valid() && fits_in(ac_id.as_str()) && fits_in(
                    ip.as_str(),
                ) {
                    let blob = param_i(
                        self.user.username.as_str(),
                        self.user.password.as_str(),
                        ip.as_str(),
                        ac_id.as_str(),
                        token.as_str(),
                        self.config.cipher_rounds,
                    );
                    (
                        State::CredentialsEncoded {
                            token: token.clone(),
                            ac_id: ac_id.clone(),
                            ip: ip.clone(),
                            blob,
                        },
                        Action::Continue,
                    )
                } else {
                    fault(Failure::Precondition)
                }
            },
            State::CredentialsEncoded { token, ac_id, ip, blob } => match event {
                Event::Proceed => {
                    let slot = password_for_checksum(self.user.password.as_str(), token.as_str());
                    let checksum = login_checksum(
                        token.as_str(),
                        self.user.username.as_str(),
                        slot.as_str(),
                        ac_id.as_str(),
                        ip.as_str(),
                        blob.as_str(),
                        self.config.hash,
                    );
                    (
                        State::ChecksumComputed {
                            token: token.clone(),
                            ac_id: ac_id.clone(),
                            ip: ip.clone(),
                            blob: blob.clone(),
                            checksum,
                        },
                        Action::Continue,
                    )
                },
                _ => fault(Failure::Precondition),
            },
            State::ChecksumComputed { token, ac_id, ip, blob, checksum } => match event {
                Event::Proceed => {
                    let password = password_for_request(
                        self.user.password.as_str(),
                        token.as_str(),
                    );
                    let request = self.make_login_request(
                        password.as_str(),
                        ac_id.as_str(),
                        ip.as_str(),
                        blob.as_str(),
                        checksum.as_str(),
                    );
                    (State::LoginSubmitted { ip: ip.clone() }, Action::SubmitLogin(request))
                },
                _ => fault(Failure::Precondition),
            },
            State::LoginSubmitted { ip } => self.from_login_submitted(ip.as_str(), event),
            State::Succeeded => end_with(LoginResult::Success),
            State::Rejected(r) => end_with(LoginResult::Rejected(r.duplicate())),
            State::Faulted(f) => end_with(LoginResult::Failed(f.duplicate())),
        }
    }

    /// Takes one step: moves to the state that follows on `event` and says
    /// what to do next. Configuration, credentials and options stay as they
    /// are.
    pub fn step(&mut self, event: Event) -> (action: Action)
        ensures
            (final(self).state@, action@) == next(old(self)@, event@),
            final(self).config == old(self).config,
            final(self).user == old(self).user,
            final(self).options == old(self).options,
    {
        let (state, action) = self.advance(event);
        self.state = state;
        action
    }
}


/// A session that is strict about the address never takes a login for
/// good where the server reports another address than was asked for: the
/// verdict is a rejection that names both, and the session ends rejected.
pub proof fn lemma_strict_bind_rejects_other_address(
    client: ClientView,
    body: Seq<u8>,
    reply: LoginReplyView,
    ip: Seq<char>,
    reported: Seq<char>,
)
    requires
        client.state == (StateView::LoginSubmitted { ip }),
        client.options.strict_bind,
        login_reply_in(body) == Some(reply),
        reply.status == Some(STATUS_OK@),
        reply.ip == Some(reported),
        reported != ip,
    ensures
        verdict(reply, ip, true) == LoginResultView::Rejected(
            RejectionView::IpMismatch { requested: ip, reported },
        ),
        next(client, EventView::LoginReply(Ok(body))) == (
            StateView::Rejected(RejectionView::IpMismatch { requested: ip, reported }),
            ActionView::Finish(
                LoginResultView::Rejected(RejectionView::IpMismatch { requested: ip, reported }),
            ),
        ),
{
}

/// Where the network is to be tested first and the probe reaches its
/// target, the session ends well at once: starting it asks for the probe
/// and nothing else, and the probe's report ends it, so that no request is
/// ever handed out.
pub proof fn lemma_open_network_needs_no_login(client: ClientView, report: ProbeReportView)
    requires
        client.state is Idle,
        valid_user(client.user),
        client.options.test_before_login,
        report is Reached,
    ensures
        next(client, EventView::Start) == (
            StateView::Idle,
            ActionView::Probe {
                target: client.config.probe_target,
                timeout_secs: client.config.probe_timeout_secs,
            },
        ),
        next(client, EventView::Probed(report)) == (
            StateView::Succeeded,
            ActionView::Finish(LoginResultView::Success),
        ),
{
}

/// A session that is over stays as it is, whatever comes, and hands out the
/// same result again.
pub proof fn lemma_over_stays_over(client: ClientView, event: EventView)
    requires
        result_of(client.state) is Some,
    ensures
        next(client, event) == (client.state, ActionView::Finish(result_of(client.state)->Some_0)),
{
}

/// A step hands out a result exactly when it ends the attempt, and the
/// result is the one that the new state holds.
#[verifier::rlimit(50)]
pub proof fn lemma_finish_ends(client: ClientView, event: EventView)
    ensures
        next(client, event).1 is Finish <==> result_of(next(client, event).0) is Some,
        next(client, event).1 matches ActionView::Finish(result) ==> result_of(
            next(client, event).0,
        ) == Some(result),
{
}

/// Requests go out in the protocol's order only. The challenge is asked for
/// from the idle state and leads to `ChallengeRequested`; the login request
/// is handed out from `ChecksumComputed` and leads to `LoginSubmitted`; and
/// a challenge is held only after the answer to a challenge request: every
/// attempt works with a challenge of its own.
#[verifier::rlimit(50)]
pub proof fn lemma_requests_in_order(client: ClientView, event: EventView)
    ensures
        next(client, event).1 is FetchChallenge ==> client.state is Idle && next(
            client,
            event,
        ).0 is ChallengeRequested,
        next(client, event).1 is SubmitLogin ==> client.state is ChecksumComputed && next(
            client,
            event,
        ).0 is LoginSubmitted,
        next(client, event).0 is ChallengeReceived ==> client.state is ChallengeRequested
            && event is ChallengeReply,
        next(client, event).0 is LoginSubmitted ==> next(client, event).1 is SubmitLogin,
{
}

/// A failure of the transport ends the attempt as it is, at either request.
pub proof fn lemma_transport_failure_ends(client: ClientView, error: TransportErrorView)
    ensures
        client.state is ChallengeRequested ==> next(
            client,
            EventView::ChallengeReply(Err(error)),
        ) == faulted(FailureView::Transport(error)),
        client.state is LoginSubmitted ==> next(client, EventView::LoginReply(Err(error)))
            == faulted(FailureView::Transport(error)),
{
}

/// What the server turns down comes out with the server's code and message
/// as they stand in the reply.
pub proof fn lemma_rejection_is_unchanged(reply: LoginReplyView, ip: Seq<char>, strict_bind: bool)
    requires
        reply.status != Some(STATUS_OK@),
        reply.code is Some || reply.message is Some,
    ensures
        verdict(reply, ip, strict_bind) == LoginResultView::Rejected(
            RejectionView::Server { code: reply.code, message: reply.message },
        ),
{
}


/// The same session in another state.
pub open spec fn at(client: ClientView, state: StateView) -> ClientView {
    ClientView { state, ..client }
}

/// From a challenge to the login request, nothing is sent but what was
/// computed: three steps lead from `ChallengeReceived` to `LoginSubmitted`,
/// and the request that the third hands out carries the password's
/// parameter, the blob sealed under the challenge's token, and the checksum
/// taken over that very blob.
#[verifier::rlimit(50)]
pub proof fn lemma_login_request_is_computed(
    client: ClientView,
    token: Seq<char>,
    ac_id: Seq<char>,
    ip: Seq<char>,
)
    requires
        client.state == (StateView::ChallengeReceived { token, ac_id, ip }),
        valid_user(client.user),
        fits(ac_id),
        fits(ip),
    ensures
        ({
            let blob = blob_text(client.user, ac_id, ip, token, client.config.cipher_rounds);
            let checksum = checksum_text(client.config.hash, client.user, ac_id, ip, token, blob);
            let encoded = next(client, EventView::Proceed);
            let summed = next(at(client, encoded.0), EventView::Proceed);
            let sent = next(at(client, summed.0), EventView::Proceed);
            &&& encoded == (
                StateView::CredentialsEncoded { token, ac_id, ip, blob },
                ActionView::Continue,
            )
            &&& summed == (
                StateView::ChecksumComputed { token, ac_id, ip, blob, checksum },
                ActionView::Continue,
            )
            &&& sent == (
                StateView::LoginSubmitted { ip },
                ActionView::SubmitLogin(
                    login_request(
                        client.config,
                        client.user.username,
                        password_param_text(client.user.password, token),
                        ac_id,
                        ip,
                        blob,
                        checksum,
                    ),
                ),
            )
        }),
{
}


/// How far a state is from the end of the attempt, in steps.
pub open spec fn rank(state: StateView) -> nat {
    match state {
        StateView::Idle => 6,
        StateView::ChallengeRequested { .. } => 5,
        StateView::ChallengeReceived { .. } => 4,
        StateView::CredentialsEncoded { .. } => 3,
        StateView::ChecksumComputed { .. } => 2,
        StateView::LoginSubmitted { .. } => 1,
        _ => 0,
    }
}

/// Whether `action` is what a session in `state` has asked for.
pub open spec fn awaits(state: StateView, action: ActionView) -> bool {
    match action {
        ActionView::Probe { .. } => state is Idle,
        ActionView::FetchChallenge(_) => state is ChallengeRequested,
        ActionView::SubmitLogin(_) => state is LoginSubmitted,
        ActionView::Continue => state is ChallengeReceived || state is CredentialsEncoded
            || state is ChecksumComputed,
        ActionView::Finish(result) => result_of(state) == Some(result),
    }
}

/// Whether `event` is what comes back from `action`.
pub open spec fn answers(event: EventView, action: ActionView) -> bool {
    match action {
        ActionView::Probe { .. } => event is Probed,
        ActionView::FetchChallenge(_) => event is ChallengeReply,
        ActionView::SubmitLogin(_) => event is LoginReply,
        ActionView::Continue => event is Proceed,
        ActionView::Finish(_) => false,
    }
}

/// An attempt is one pass. Every step leaves the session in a state that
/// waits for the action handed out; starting never moves a session back;
/// and from then on every event that answers the last action moves the
/// session strictly nearer to its end, whatever the event holds. So an
/// attempt is over after its start and at most six more steps.
#[verifier::rlimit(50)]
pub proof fn lemma_attempt_is_one_pass(client: ClientView, action: ActionView, event: EventView)
    ensures
        awaits(next(client, event).0, next(client, event).1),
        client.state is Idle && event is Start ==> rank(next(client, event).0) <= rank(
            client.state,
        ),
        awaits(client.state, action) && answers(event, action) ==> rank(next(client, event).0)
            < rank(client.state),
{
}


/// What comes back from the outside in the course of one attempt: from the
/// probe, from the challenge request and from the login request.
pub struct Replies {
    pub probe: ProbeReportView,
    pub challenge: Result<Seq<u8>, TransportErrorView>,
    pub login: Result<Seq<u8>, TransportErrorView>,
}

/// The event that comes back from an action.
pub open spec fn reply_to(action: ActionView, replies: Replies) -> EventView {
    match action {
        ActionView::Probe { .. } => EventView::Probed(replies.probe),
        ActionView::FetchChallenge(_) => EventView::ChallengeReply(replies.challenge),
        ActionView::SubmitLogin(_) => EventView::LoginReply(replies.login),
        _ => EventView::Proceed,
    }
}

/// The result of running a session on from `action`, each action answered
/// by its reply, where the session ends within `steps` steps.
pub open spec fn run(client: ClientView, action: ActionView, replies: Replies, steps: nat)
    -> Option<LoginResultView>
    decreases steps,
{
    match action {
        ActionView::Finish(result) => Some(result),
        _ => if steps == 0 {
            None
        } else {
            let (state, then) = next(client, reply_to(action, replies));
            run(at(client, state), then, replies, (steps - 1) as nat)
        },
    }
}

/// The address that the challenge request of an attempt names.
pub open spec fn hint_of(client: ClientView, replies: Replies) -> Seq<char> {
    if needs_probe(client.options, client.user) {
        hint_after_probe(client.user, client.options, replies.probe)
    } else {
        caller_ip(client.user)
    }
}

/// What the server's reply to the login request means for an attempt that
/// got `challenge`.
pub open spec fn attempt_with(client: ClientView, replies: Replies, challenge: ChallengeView)
    -> LoginResultView {
    let ac_id = resolved_ac_id(client.config, challenge);
    let ip = resolved_ip(hint_of(client, replies), client.options, challenge);
    if !fits(ac_id) || !fits(ip) {
        LoginResultView::Failed(FailureView::Precondition)
    } else {
        match replies.login {
            Err(e) => LoginResultView::Failed(FailureView::Transport(e)),
            Ok(body) => match login_reply_in(body) {
                Some(reply) => verdict(reply, ip, client.options.strict_bind),
                None => LoginResultView::Failed(FailureView::MalformedResponse),
            },
        }
    }
}

/// What an attempt comes to once the challenge request is out.
pub open spec fn attempt_from_request(client: ClientView, replies: Replies) -> LoginResultView {
    match replies.challenge {
        Err(e) => LoginResultView::Failed(FailureView::Transport(e)),
        Ok(body) => match challenge_in(body) {
            Some(challenge) => attempt_with(client, replies, challenge),
            None => LoginResultView::Failed(FailureView::MalformedResponse),
        },
    }
}

/// What a whole attempt comes to, said in one piece. Credentials that cannot
/// be encoded fail it at once. Where the network is to be tested first and
/// the probe reaches its target, it is a success with nothing sent. A
/// failure of the transport, or an answer that cannot be read, ends it at
/// the request where it happens. Else the server's reply to the login
/// request decides.
pub open spec fn attempt(client: ClientView, replies: Replies) -> LoginResultView {
    if !valid_user(client.user) {
        LoginResultView::Failed(FailureView::Precondition)
    } else if client.options.test_before_login && replies.probe is Reached {
        LoginResultView::Success
    } else {
        attempt_from_request(client, replies)
    }
}

#[verifier::rlimit(50)]
proof fn lemma_run_from_challenge(
    client: ClientView,
    replies: Replies,
    challenge: ChallengeView,
    token: Seq<char>,
    ac_id: Seq<char>,
    ip: Seq<char>,
    steps: nat,
)
    requires
        client.state == (StateView::ChallengeReceived { token, ac_id, ip }),
        valid_user(client.user),
        ac_id == resolved_ac_id(client.config, challenge),
        ip == resolved_ip(hint_of(client, replies), client.options, challenge),
        steps >= 4,
    ensures
        run(client, ActionView::Continue, replies, steps) == Some(
            attempt_with(client, replies, challenge),
        ),
{
    let encoded = next(client, EventView::Proceed);
    assert(run(client, ActionView::Continue, replies, steps) == run(
        at(client, encoded.0),
        encoded.1,
        replies,
        (steps - 1) as nat,
    ));
    if fits(ac_id) && fits(ip) {
        lemma_login_request_is_computed(client, token, ac_id, ip);
        let summed = next(at(client, encoded.0), EventView::Proceed);
        let sent = next(at(client, summed.0), EventView::Proceed);
        let done = next(at(client, sent.0), EventView::LoginReply(replies.login));
        assert(run(at(client, encoded.0), encoded.1, replies, (steps - 1) as nat) == run(
            at(client, summed.0),
            summed.1,
            replies,
            (steps - 2) as nat,
        ));
        assert(run(at(client, summed.0), summed.1, replies, (steps - 2) as nat) == run(
            at(client, sent.0),
            sent.1,
            replies,
            (steps - 3) as nat,
        ));
        assert(run(at(client, sent.0), sent.1, replies, (steps - 3) as nat) == run(
            at(client, done.0),
            done.1,
            replies,
            (steps - 4) as nat,
        ));
        assert(done.1 == ActionView::Finish(attempt_with(client, replies, challenge)));
    } else {
        assert(encoded.1 == ActionView::Finish(
            LoginResultView::Failed(FailureView::Precondition),
        ));
    }
}

#[verifier::rlimit(50)]
proof fn lemma_run_from_request(
    client: ClientView,
    replies: Replies,
    request: RequestView,
    hint: Seq<char>,
    steps: nat,
)
    requires
        client.state == (StateView::ChallengeRequested { hint }),
        valid_user(client.user),
        hint == hint_of(client, replies),
        steps >= 5,
    ensures
        run(client, ActionView::FetchChallenge(request), replies, steps) == Some(
            attempt_from_request(client, replies),
        ),
{
    let (state, then) = next(client, EventView::ChallengeReply(replies.challenge));
    let rest = (steps - 1) as nat;
    assert(run(client, ActionView::FetchChallenge(request), replies, steps) == run(
        at(client, state),
        then,
        replies,
        rest,
    ));
    match replies.challenge {
        Err(e) => {
            assert(then == ActionView::Finish(LoginResultView::Failed(FailureView::Transport(e))));
        },
        Ok(body) => match challenge_in(body) {
            Some(challenge) => {
                let token = challenge.token;
                let ac_id = resolved_ac_id(client.config, challenge);
                let ip = resolved_ip(hint, client.options, challenge);
                assert(state == (StateView::ChallengeReceived { token, ac_id, ip }));
                assert(then == ActionView::Continue);
                lemma_run_from_challenge(
                    at(client, state),
                    replies,
                    challenge,
                    token,
                    ac_id,
                    ip,
                    rest,
                );
                assert(attempt_with(at(client, state), replies, challenge) == attempt_with(
                    client,
                    replies,
                    challenge,
                ));
            },
            None => {
                assert(then == ActionView::Finish(
                    LoginResultView::Failed(FailureView::MalformedResponse),
                ));
            },
        },
    }
}

/// A session that is started and run, each action answered by its reply,
/// ends within six steps after its start, and its result is the one that
/// `attempt` names.
#[verifier::rlimit(50)]
pub proof fn lemma_run_is_attempt(client: ClientView, replies: Replies)
    requires
        client.state is Idle,
    ensures
        run(
            at(client, next(client, EventView::Start).0),
            next(client, EventView::Start).1,
            replies,
            6,
        ) == Some(attempt(client, replies)),
{
    let (started, first) = next(client, EventView::Start);
    let whole = run(at(client, started), first, replies, 6);
    if !valid_user(client.user) {
        assert(first == ActionView::Finish(LoginResultView::Failed(FailureView::Precondition)));
    } else if needs_probe(client.options, client.user) {
        assert(started is Idle && first is Probe);
        let (state, then) = next(at(client, started), EventView::Probed(replies.probe));
        assert(whole == run(at(client, state), then, replies, 5));
        if client.options.test_before_login && replies.probe is Reached {
            assert(then == ActionView::Finish(LoginResultView::Success));
        } else {
            let hint = hint_after_probe(client.user, client.options, replies.probe);
            let request = challenge_request(client.config, client.user.username, hint);
            assert(state == (StateView::ChallengeRequested { hint }));
            assert(then == ActionView::FetchChallenge(request));
            lemma_run_from_request(at(client, state), replies, request, hint, 5);
            assert(attempt_from_request(at(client, state), replies) == attempt_from_request(
                client,
                replies,
            ));
        }
    } else {
        let hint = caller_ip(client.user);
        let request = challenge_request(client.config, client.user.username, hint);
        assert(started == (StateView::ChallengeRequested { hint }));
        assert(first == ActionView::FetchChallenge(request));
        lemma_run_from_request(at(client, started), replies, request, hint, 6);
        assert(attempt_from_request(at(client, started), replies) == attempt_from_request(
            client,
            replies,
        ));
    }
}

} // verus!
