use srun::digest::HashAlgorithm;
use srun::outcome::{Failure, LoginResult, Rejection, TransportError, TransportKind};
use srun::reply::{Challenge, LoginReply};
use srun::srun::{
    judge, settle, Action, Config, Event, ProbeReport, Request, State, CHALLENGE_PATH,
    DEFAULT_AC_ID, DEFAULT_CALLBACK, DEFAULT_CIPHER_ROUNDS, DEFAULT_PROBE_TARGET,
    DEFAULT_PROBE_TIMEOUT_SECS, DEFAULT_REQUEST_TIMEOUT_SECS, LOGIN_PATH,
};
use srun::{login_with_options, srun_login, LoginOptions, SrunClient, User, SERVER};

const BLOB_NO_PASSWORD: &str = "{SRBX1}qfbXAOrXj/X+18/hHn661uctiZSjFxd8jaeMznEdQaxxCHQlcgGAkyW65GHGTygHdW96cgRc/IKCT038GEdlH/eb0PAEOiX/";

const BLOB_ALICE: &str = "{SRBX1}lhuvvkVuBIibjPRdkqy2vh7v4uu3SZffEMIGwisaYrVWO6YyZUOtwdz4BS+m4YjZIqa3bLpQkrIyfbTsrgfJM5qVu1mNYMGrYqXnTyyr+PUProj9R631KIBINqZuwln0";

struct Network {
    probe: ProbeReport,
    challenge: Result<Vec<u8>, TransportError>,
    login: Result<Vec<u8>, TransportError>,
    probes: Vec<(String, u64)>,
    challenges: Vec<Request>,
    logins: Vec<Request>,
    states: Vec<State>,
}

impl Network {
    fn new(challenge: &str, login: &str) -> Network {
        Network {
            probe: ProbeReport::Unreachable,
            challenge: Ok(challenge.as_bytes().to_vec()),
            login: Ok(login.as_bytes().to_vec()),
            probes: Vec::new(),
            challenges: Vec::new(),
            logins: Vec::new(),
            states: Vec::new(),
        }
    }
}

fn run(client: &mut SrunClient, network: &mut Network) -> LoginResult {
    let mut action = client.step(Event::Start);
    for _ in 0..16 {
        network.states.push(client.state.clone());
        let event = match action {
            Action::Probe { target, timeout_secs } => {
                network.probes.push((target, timeout_secs));
                Event::Probed(network.probe.clone())
            }
            Action::FetchChallenge(request) => {
                network.challenges.push(request);
                Event::ChallengeReply(network.challenge.clone())
            }
            Action::SubmitLogin(request) => {
                network.logins.push(request);
                Event::LoginReply(network.login.clone())
            }
            Action::Continue => Event::Proceed,
            Action::Finish(result) => return result,
        };
        action = client.step(event);
    }
    panic!("the session did not end");
}

fn pairs(list: &[(&str, &str)]) -> Vec<(String, String)> {
    list.iter().map(|(k, v)| (k.to_string(), v.to_string())).collect()
}

fn timeout() -> TransportError {
    TransportError { kind: TransportKind::Timeout, detail: "timed out after 10 s".to_string() }
}

fn alice() -> User {
    User {
        username: "alice".to_string(),
        password: "secret".to_string(),
        ip: Some("10.0.0.7".to_string()),
    }
}

fn submitted(ip: &str, options: LoginOptions) -> SrunClient {
    let mut client = SrunClient::new(Config::new("http://portal/"), alice(), options);
    client.state = State::LoginSubmitted { ip: ip.to_string() };
    client
}

#[test]
fn login_without_password_runs_to_success() {
    let mut client = login_with_options("u1", "", &LoginOptions::default());
    let mut network = Network::new(
        "jsonp({\"challenge\":\"abc123\",\"ecode\":0,\"res\":\"ok\"})",
        "jsonp({\"res\":\"ok\",\"suc_msg\":\"login_ok\",\"ecode\":0})",
    );
    assert_eq!(run(&mut client, &mut network), LoginResult::Success);
    assert_eq!(client.state, State::Succeeded);
    assert_eq!(client.result(), Some(LoginResult::Success));
    assert!(network.probes.is_empty());
    assert_eq!(
        network.challenges,
        vec![Request {
            url: "http://172.16.130.31/cgi-bin/get_challenge".to_string(),
            query: pairs(&[("callback", "jsonp"), ("username", "u1"), ("ip", "")]),
            timeout_secs: 10,
        }]
    );
    assert_eq!(
        network.logins,
        vec![Request {
            url: "http://172.16.130.31/cgi-bin/srun_portal".to_string(),
            query: pairs(&[
                ("callback", "jsonp"),
                ("action", "login"),
                ("username", "u1"),
                ("password", "{NONE}"),
                ("ac_id", "1"),
                ("ip", ""),
                ("info", BLOB_NO_PASSWORD),
                ("chksum", "8f2f65fac5828bfd823531c9b0d4cb7d7ebdecbc"),
                ("n", "200"),
                ("type", "1"),
            ]),
            timeout_secs: 10,
        }]
    );
}

#[test]
fn the_session_passes_through_every_state() {
    let mut client = login_with_options("u1", "", &LoginOptions::default());
    let mut network = Network::new("{\"challenge\":\"abc123\"}", "{\"res\":\"ok\"}");
    assert_eq!(client.state, State::Idle);
    assert_eq!(run(&mut client, &mut network), LoginResult::Success);
    let token = "abc123".to_string();
    let one = "1".to_string();
    assert_eq!(
        network.states,
        vec![
            State::ChallengeRequested { hint: String::new() },
            State::ChallengeReceived { token: token.clone(), ac_id: one.clone(), ip: String::new() },
            State::CredentialsEncoded {
                token: token.clone(),
                ac_id: one.clone(),
                ip: String::new(),
                blob: BLOB_NO_PASSWORD.to_string(),
            },
            State::ChecksumComputed {
                token,
                ac_id: one,
                ip: String::new(),
                blob: BLOB_NO_PASSWORD.to_string(),
                checksum: "8f2f65fac5828bfd823531c9b0d4cb7d7ebdecbc".to_string(),
            },
            State::LoginSubmitted { ip: String::new() },
            State::Succeeded,
        ]
    );
}

#[test]
fn login_with_password_and_address_sends_the_known_values() {
    let mut client = SrunClient::new_from_user("http://portal.example/", alice());
    let mut network = Network::new(
        "{\"challenge\":\"abc123\",\"client_ip\":\"10.9.9.9\"}",
        "{\"res\":\"ok\",\"online_ip\":\"10.0.0.7\"}",
    );
    assert_eq!(run(&mut client, &mut network), LoginResult::Success);
    assert_eq!(
        network.challenges[0],
        Request {
            url: "http://portal.example/cgi-bin/get_challenge".to_string(),
            query: pairs(&[("callback", "jsonp"), ("username", "alice"), ("ip", "10.0.0.7")]),
            timeout_secs: 10,
        }
    );
    assert_eq!(
        network.logins[0],
        Request {
            url: "http://portal.example/cgi-bin/srun_portal".to_string(),
            query: pairs(&[
                ("callback", "jsonp"),
                ("action", "login"),
                ("username", "alice"),
                ("password", "3e3254223c487f2376871b226cc26bdf"),
                ("ac_id", "1"),
                ("ip", "10.0.0.7"),
                ("info", BLOB_ALICE),
                ("chksum", "ecbf4568ad8663a9e454d78fe5726df21e24cc03"),
                ("n", "200"),
                ("type", "1"),
            ]),
            timeout_secs: 10,
        }
    );
}

#[test]
fn the_configuration_is_what_the_requests_are_made_of() {
    let mut config = Config::new("https://gw/");
    config.ac_id = "12".to_string();
    config.callback = "cb".to_string();
    config.hash = HashAlgorithm::Md5;
    config.request_timeout_secs = 4;
    let mut client = SrunClient::new(config, alice(), LoginOptions::default());
    let mut network = Network::new("cb({\"challenge\":\"abc123\"})", "cb({\"res\":\"ok\"})");
    assert_eq!(run(&mut client, &mut network), LoginResult::Success);
    assert_eq!(network.challenges[0].timeout_secs, 4);
    assert_eq!(network.challenges[0].query[0], ("callback".to_string(), "cb".to_string()));
    let login = &network.logins[0];
    assert_eq!(login.url, "https://gw/cgi-bin/srun_portal");
    assert_eq!(login.timeout_secs, 4);
    assert_eq!(login.query[4], ("ac_id".to_string(), "12".to_string()));
    assert_eq!(login.query[7].1.len(), 32);
}

#[test]
fn a_timeout_on_the_challenge_ends_the_attempt() {
    let mut client = login_with_options("u1", "pw", &LoginOptions::default());
    let mut network = Network::new("", "{\"res\":\"ok\"}");
    network.challenge = Err(timeout());
    assert_eq!(
        run(&mut client, &mut network),
        LoginResult::Failed(Failure::Transport(timeout()))
    );
    assert_eq!(client.state, State::Faulted(Failure::Transport(timeout())));
    assert_eq!(network.challenges.len(), 1);
    assert!(network.logins.is_empty());
}

#[test]
fn a_transport_failure_on_the_login_ends_the_attempt() {
    let refused = TransportError { kind: TransportKind::Refused, detail: "refused".to_string() };
    let mut client = login_with_options("u1", "pw", &LoginOptions::default());
    let mut network = Network::new("{\"challenge\":\"abc123\"}", "");
    network.login = Err(refused.clone());
    assert_eq!(run(&mut client, &mut network), LoginResult::Failed(Failure::Transport(refused)));
    assert_eq!(network.logins.len(), 1);
}

#[test]
fn a_rejection_carries_the_servers_code_and_message() {
    let mut client = login_with_options("u1", "pw", &LoginOptions::default());
    let mut network = Network::new(
        "{\"challenge\":\"abc123\"}",
        "jsonp({\"res\":\"login_error\",\"ecode\":\"E2409\",\"error_msg\":\"already online\"})",
    );
    let expected = Rejection::Server {
        code: Some("E2409".to_string()),
        message: Some("already online".to_string()),
    };
    assert_eq!(run(&mut client, &mut network), LoginResult::Rejected(expected.clone()));
    assert_eq!(client.state, State::Rejected(expected.clone()));
    assert_eq!(client.result(), Some(LoginResult::Rejected(expected)));
}

#[test]
fn a_malformed_challenge_ends_the_attempt() {
    for body in ["", "<html>", "{\"challenge\":\"\"}", "{\"client_ip\":\"1.2.3.4\"}", "jsonp({)"] {
        let mut client = login_with_options("u1", "pw", &LoginOptions::default());
        let mut network = Network::new(body, "{\"res\":\"ok\"}");
        assert_eq!(
            run(&mut client, &mut network),
            LoginResult::Failed(Failure::MalformedResponse)
        );
        assert_eq!(client.state, State::Faulted(Failure::MalformedResponse));
        assert!(network.logins.is_empty());
    }
}

#[test]
fn a_malformed_login_reply_ends_the_attempt() {
    for body in ["", "garbage", "{}", "{\"res\":\"fail\"}", "{\"ecode\":5}", "jsonp("] {
        let mut client = login_with_options("u1", "pw", &LoginOptions::default());
        let mut network = Network::new("{\"challenge\":\"abc123\"}", body);
        assert_eq!(
            run(&mut client, &mut network),
            LoginResult::Failed(Failure::MalformedResponse)
        );
    }
}

#[test]
fn strict_bind_rejects_another_address() {
    let options = LoginOptions { detect_ip: false, strict_bind: true, test_before_login: false };
    let mut client = SrunClient::new(Config::new("http://portal/"), alice(), options);
    let mut network = Network::new(
        "{\"challenge\":\"abc123\"}",
        "{\"res\":\"ok\",\"online_ip\":\"10.0.0.8\"}",
    );
    let expected = Rejection::IpMismatch {
        requested: "10.0.0.7".to_string(),
        reported: "10.0.0.8".to_string(),
    };
    assert_eq!(run(&mut client, &mut network), LoginResult::Rejected(expected.clone()));
    assert_eq!(client.state, State::Rejected(expected));
}

#[test]
fn strict_bind_accepts_the_same_address_or_none() {
    let options = LoginOptions { detect_ip: false, strict_bind: true, test_before_login: false };
    for reply in ["{\"res\":\"ok\",\"online_ip\":\"10.0.0.7\"}", "{\"res\":\"ok\"}"] {
        let mut client = SrunClient::new(Config::new("http://portal/"), alice(), options);
        let mut network = Network::new("{\"challenge\":\"abc123\"}", reply);
        assert_eq!(run(&mut client, &mut network), LoginResult::Success);
    }
}

#[test]
fn without_strict_bind_another_address_is_a_success() {
    let mut client = SrunClient::new_from_user("http://portal/", alice());
    let mut network = Network::new(
        "{\"challenge\":\"abc123\"}",
        "{\"res\":\"ok\",\"online_ip\":\"10.0.0.8\"}",
    );
    assert_eq!(run(&mut client, &mut network), LoginResult::Success);
}

#[test]
fn judge_reads_the_reply() {
    let ok = LoginReply {
        status: Some("ok".to_string()),
        code: None,
        message: None,
        ip: Some("10.0.0.8".to_string()),
    };
    assert_eq!(judge(&ok, "10.0.0.8", true), LoginResult::Success);
    assert_eq!(judge(&ok, "10.0.0.7", false), LoginResult::Success);
    assert_eq!(
        judge(&ok, "10.0.0.7", true),
        LoginResult::Rejected(Rejection::IpMismatch {
            requested: "10.0.0.7".to_string(),
            reported: "10.0.0.8".to_string(),
        })
    );
    assert_eq!(
        judge(&ok, "", true),
        LoginResult::Rejected(Rejection::IpMismatch {
            requested: String::new(),
            reported: "10.0.0.8".to_string(),
        })
    );
    let ok_with_code = LoginReply { code: Some("E0".to_string()), ..ok.clone() };
    assert_eq!(judge(&ok_with_code, "10.0.0.8", true), LoginResult::Success);
    let only_code =
        LoginReply { status: None, code: Some("E2620".to_string()), message: None, ip: None };
    assert_eq!(
        judge(&only_code, "", false),
        LoginResult::Rejected(Rejection::Server { code: Some("E2620".to_string()), message: None })
    );
    let only_message = LoginReply {
        status: Some("OK".to_string()),
        code: None,
        message: Some("no".to_string()),
        ip: Some("10.0.0.8".to_string()),
    };
    assert_eq!(
        judge(&only_message, "10.0.0.7", true),
        LoginResult::Rejected(Rejection::Server { code: None, message: Some("no".to_string()) })
    );
    let nothing = LoginReply { status: Some("error".to_string()), code: None, message: None, ip: None };
    assert_eq!(judge(&nothing, "", false), LoginResult::Failed(Failure::MalformedResponse));
}

#[test]
fn an_open_network_needs_no_login() {
    let options = LoginOptions { detect_ip: false, strict_bind: false, test_before_login: true };
    let mut client = login_with_options("u1", "pw", &options);
    let mut network = Network::new("{\"challenge\":\"abc123\"}", "{\"res\":\"ok\"}");
    network.probe = ProbeReport::Reached { elapsed_ms: 12, local_ip: Some("10.0.0.7".to_string()) };
    assert_eq!(run(&mut client, &mut network), LoginResult::Success);
    assert_eq!(client.state, State::Succeeded);
    assert_eq!(network.probes, vec![("baidu.com:80".to_string(), 3)]);
    assert!(network.challenges.is_empty());
    assert!(network.logins.is_empty());
    assert_eq!(network.states, vec![State::Idle, State::Succeeded]);
}

#[test]
fn a_closed_network_is_logged_in() {
    let options = LoginOptions { detect_ip: false, strict_bind: false, test_before_login: true };
    let mut client = login_with_options("u1", "pw", &options);
    let mut network = Network::new("{\"challenge\":\"abc123\"}", "{\"res\":\"ok\"}");
    assert_eq!(run(&mut client, &mut network), LoginResult::Success);
    assert_eq!(network.probes.len(), 1);
    assert_eq!(network.challenges.len(), 1);
    assert_eq!(network.logins.len(), 1);
}

#[test]
fn the_probe_is_left_out_where_nothing_asks_for_it() {
    let mut named = SrunClient::new_from_user("http://portal/", alice()).set_detect_ip(true);
    assert_eq!(
        named.step(Event::Start),
        Action::FetchChallenge(Request {
            url: "http://portal/cgi-bin/get_challenge".to_string(),
            query: pairs(&[("callback", "jsonp"), ("username", "alice"), ("ip", "10.0.0.7")]),
            timeout_secs: 10,
        })
    );
    let mut plain = srun_login("u1", "pw", false);
    assert!(matches!(plain.step(Event::Start), Action::FetchChallenge(_)));
    let mut stray = srun_login("u1", "pw", false);
    assert_eq!(
        stray.step(Event::Probed(ProbeReport::Unreachable)),
        Action::Finish(LoginResult::Failed(Failure::Precondition))
    );
}

#[test]
fn the_address_is_found_by_the_probe() {
    let mut client = srun_login("u1", "pw", true);
    let mut network = Network::new(
        "{\"challenge\":\"abc123\",\"client_ip\":\"10.9.9.9\"}",
        "{\"res\":\"ok\"}",
    );
    network.probe = ProbeReport::Reached { elapsed_ms: 5, local_ip: Some("10.0.0.42".to_string()) };
    assert_eq!(run(&mut client, &mut network), LoginResult::Success);
    assert_eq!(network.probes.len(), 1);
    assert_eq!(network.challenges[0].query[2], ("ip".to_string(), "10.0.0.42".to_string()));
    assert_eq!(network.logins[0].query[5], ("ip".to_string(), "10.0.0.42".to_string()));
}

#[test]
fn the_address_is_taken_from_the_server_where_the_probe_finds_none() {
    let mut client = srun_login("u1", "pw", true);
    let mut network = Network::new(
        "{\"challenge\":\"abc123\",\"client_ip\":\"10.9.9.9\"}",
        "{\"res\":\"ok\"}",
    );
    assert_eq!(run(&mut client, &mut network), LoginResult::Success);
    assert_eq!(network.challenges[0].query[2], ("ip".to_string(), String::new()));
    assert_eq!(network.logins[0].query[5], ("ip".to_string(), "10.9.9.9".to_string()));
}

#[test]
fn the_servers_address_is_left_alone_without_detection() {
    let mut client = srun_login("u1", "pw", false);
    let mut network = Network::new(
        "{\"challenge\":\"abc123\",\"client_ip\":\"10.9.9.9\",\"ac_id\":\"7\"}",
        "{\"res\":\"ok\"}",
    );
    assert_eq!(run(&mut client, &mut network), LoginResult::Success);
    assert_eq!(network.logins[0].query[5], ("ip".to_string(), String::new()));
    assert_eq!(network.logins[0].query[4], ("ac_id".to_string(), "7".to_string()));
}

#[test]
fn settle_picks_token_access_point_and_address() {
    let config = Config::new("http://portal/");
    let detect = LoginOptions { detect_ip: true, strict_bind: false, test_before_login: false };
    let challenge = Challenge {
        token: "tok".to_string(),
        client_ip: Some("10.9.9.9".to_string()),
        ac_id: Some("7".to_string()),
    };
    assert_eq!(
        settle(&config, &detect, "", challenge.clone()),
        State::ChallengeReceived {
            token: "tok".to_string(),
            ac_id: "7".to_string(),
            ip: "10.9.9.9".to_string(),
        }
    );
    assert_eq!(
        settle(&config, &detect, "10.0.0.7", challenge.clone()),
        State::ChallengeReceived {
            token: "tok".to_string(),
            ac_id: "7".to_string(),
            ip: "10.0.0.7".to_string(),
        }
    );
    let bare = Challenge { token: "tok".to_string(), client_ip: None, ac_id: None };
    assert_eq!(
        settle(&config, &detect, "", bare),
        State::ChallengeReceived { token: "tok".to_string(), ac_id: "1".to_string(), ip: String::new() }
    );
    assert_eq!(
        settle(&config, &LoginOptions::default(), "", challenge),
        State::ChallengeReceived { token: "tok".to_string(), ac_id: "7".to_string(), ip: String::new() }
    );
}

#[test]
fn credentials_that_cannot_be_encoded_are_refused_at_the_start() {
    let long = "x".repeat(4097);
    let users = [
        User { username: String::new(), password: "pw".to_string(), ip: None },
        User { username: long.clone(), password: "pw".to_string(), ip: None },
        User { username: "u1".to_string(), password: long.clone(), ip: None },
        User { username: "u1".to_string(), password: "pw".to_string(), ip: Some(long.clone()) },
    ];
    for user in users {
        let mut client = SrunClient::new_from_user("http://portal/", user);
        assert_eq!(
            client.step(Event::Start),
            Action::Finish(LoginResult::Failed(Failure::Precondition))
        );
        assert_eq!(client.state, State::Faulted(Failure::Precondition));
    }
    let fits = User { username: "x".repeat(4096), password: "x".repeat(4096), ip: None };
    let mut client = SrunClient::new_from_user("http://portal/", fits);
    assert!(matches!(client.step(Event::Start), Action::FetchChallenge(_)));
}

#[test]
fn an_address_from_the_server_that_is_too_long_is_refused() {
    let long = "9".repeat(4097);
    let mut client = srun_login("u1", "pw", false);
    let challenge = format!("{{\"challenge\":\"abc123\",\"ac_id\":\"{}\"}}", long);
    let mut network = Network::new(&challenge, "{\"res\":\"ok\"}");
    assert_eq!(run(&mut client, &mut network), LoginResult::Failed(Failure::Precondition));
    assert!(network.logins.is_empty());
}

#[test]
fn an_event_out_of_turn_ends_the_attempt() {
    let out_of_turn = Action::Finish(LoginResult::Failed(Failure::Precondition));
    let mut idle = srun_login("u1", "pw", false);
    assert_eq!(idle.step(Event::Proceed), out_of_turn);
    let mut idle = srun_login("u1", "pw", false);
    assert_eq!(idle.step(Event::LoginReply(Ok(b"{\"res\":\"ok\"}".to_vec()))), out_of_turn);
    let mut waiting = srun_login("u1", "pw", false);
    assert!(matches!(waiting.step(Event::Start), Action::FetchChallenge(_)));
    assert_eq!(waiting.step(Event::Start), out_of_turn);
    let mut waiting = srun_login("u1", "pw", false);
    waiting.step(Event::Start);
    assert_eq!(waiting.step(Event::LoginReply(Ok(b"{\"res\":\"ok\"}".to_vec()))), out_of_turn);
    let mut received = srun_login("u1", "pw", false);
    received.step(Event::Start);
    assert_eq!(
        received.step(Event::ChallengeReply(Ok(b"{\"challenge\":\"t\"}".to_vec()))),
        Action::Continue
    );
    assert_eq!(received.step(Event::Start), out_of_turn);
    let mut sent = submitted("10.0.0.7", LoginOptions::default());
    assert_eq!(sent.step(Event::Proceed), out_of_turn);
    assert_eq!(sent.state, State::Faulted(Failure::Precondition));
}

#[test]
fn a_session_that_is_over_stays_over() {
    let mut client = submitted("10.0.0.7", LoginOptions::default());
    assert_eq!(
        client.step(Event::LoginReply(Ok(b"{\"res\":\"ok\"}".to_vec()))),
        Action::Finish(LoginResult::Success)
    );
    for event in [
        Event::Start,
        Event::Proceed,
        Event::Probed(ProbeReport::Unreachable),
        Event::ChallengeReply(Err(timeout())),
        Event::LoginReply(Ok(b"{\"ecode\":\"E1\"}".to_vec())),
    ] {
        assert_eq!(client.step(event), Action::Finish(LoginResult::Success));
        assert_eq!(client.state, State::Succeeded);
    }
    let mut failed = srun_login("", "pw", false);
    failed.step(Event::Start);
    assert_eq!(failed.step(Event::Start), Action::Finish(LoginResult::Failed(Failure::Precondition)));
    assert_eq!(failed.result(), Some(LoginResult::Failed(Failure::Precondition)));
}

#[test]
fn a_session_that_runs_has_no_result() {
    let mut client = srun_login("u1", "pw", false);
    assert_eq!(client.result(), None);
    client.step(Event::Start);
    assert_eq!(client.result(), None);
    assert!(!LoginResult::Failed(Failure::Precondition).is_success());
    assert!(LoginResult::Success.is_success());
}

#[test]
fn the_setters_switch_one_option_each() {
    let client = SrunClient::new_from_user("http://portal/", alice());
    assert_eq!(client.options, LoginOptions::default());
    let client = client.set_detect_ip(true);
    assert_eq!(
        client.options,
        LoginOptions { detect_ip: true, strict_bind: false, test_before_login: false }
    );
    let client = client.set_strict_bind(true).set_test_before_login(true).set_detect_ip(false);
    assert_eq!(
        client.options,
        LoginOptions { detect_ip: false, strict_bind: true, test_before_login: true }
    );
    assert_eq!(client.user.username, "alice");
    assert_eq!(client.state, State::Idle);
}

#[test]
fn the_entry_points_set_up_the_campus_server() {
    let options = LoginOptions { detect_ip: true, strict_bind: true, test_before_login: false };
    let client = login_with_options("u1", "pw", &options);
    assert_eq!(SERVER, "http://172.16.130.31/");
    assert_eq!(client.config.server, "http://172.16.130.31/");
    assert_eq!(client.user.username, "u1");
    assert_eq!(client.user.password, "pw");
    assert_eq!(client.user.ip, None);
    assert_eq!(client.options, options);
    assert_eq!(client.state, State::Idle);
    let client = srun_login("u2", "", true);
    assert_eq!(client.user.username, "u2");
    assert_eq!(client.user.password, "");
    assert_eq!(
        client.options,
        LoginOptions { detect_ip: true, strict_bind: false, test_before_login: false }
    );
}

#[test]
fn the_defaults_are_the_documented_ones() {
    let config = Config::new("http://portal/");
    assert_eq!(config.server, "http://portal/");
    assert_eq!(config.ac_id, DEFAULT_AC_ID);
    assert_eq!(config.callback, DEFAULT_CALLBACK);
    assert_eq!(config.cipher_rounds, DEFAULT_CIPHER_ROUNDS);
    assert_eq!(config.hash, HashAlgorithm::Sha1);
    assert_eq!(config.request_timeout_secs, DEFAULT_REQUEST_TIMEOUT_SECS);
    assert_eq!(config.probe_target, DEFAULT_PROBE_TARGET);
    assert_eq!(config.probe_timeout_secs, DEFAULT_PROBE_TIMEOUT_SECS);
    assert_eq!(DEFAULT_CIPHER_ROUNDS, 32);
    assert_eq!(CHALLENGE_PATH, "cgi-bin/get_challenge");
    assert_eq!(LOGIN_PATH, "cgi-bin/srun_portal");
    let copy = config.duplicate();
    assert_eq!(copy.server, config.server);
    let user = User::default();
    assert_eq!(user.username, "");
    assert_eq!(user.password, "");
    assert_eq!(user.ip, None);
    let twin = alice().duplicate();
    assert_eq!(twin.ip, Some("10.0.0.7".to_string()));
    let options = LoginOptions::default();
    assert!(!options.detect_ip && !options.strict_bind && !options.test_before_login);
}

#[test]
fn results_are_put_in_words() {
    assert_eq!(LoginResult::Success.describe(), "login succeeded");
    let both = Rejection::Server {
        code: Some("E2409".to_string()),
        message: Some("already online".to_string()),
    };
    assert_eq!(LoginResult::Rejected(both).describe(), "E2409: already online");
    let code = Rejection::Server { code: Some("E2409".to_string()), message: None };
    assert_eq!(LoginResult::Rejected(code).describe(), "E2409");
    let message = Rejection::Server { code: None, message: Some("already online".to_string()) };
    assert_eq!(LoginResult::Rejected(message).describe(), "already online");
    let neither = Rejection::Server { code: None, message: None };
    assert_eq!(LoginResult::Rejected(neither).describe(), "login rejected");
    let mismatch = Rejection::IpMismatch {
        requested: "10.0.0.7".to_string(),
        reported: "10.0.0.8".to_string(),
    };
    assert_eq!(
        LoginResult::Rejected(mismatch).describe(),
        "address mismatch: asked for 10.0.0.7, server reports 10.0.0.8"
    );
    assert_eq!(
        LoginResult::Failed(Failure::Transport(timeout())).describe(),
        "timed out: timed out after 10 s"
    );
    for (kind, words) in [
        (TransportKind::Unreachable, "network unreachable: x"),
        (TransportKind::Refused, "connection refused: x"),
        (TransportKind::Other, "transport error: x"),
    ] {
        let error = TransportError { kind, detail: "x".to_string() };
        assert_eq!(error.duplicate(), error);
        assert_eq!(LoginResult::Failed(Failure::Transport(error)).describe(), words);
    }
    assert_eq!(
        LoginResult::Failed(Failure::MalformedResponse).describe(),
        "malformed server response"
    );
    assert_eq!(
        LoginResult::Failed(Failure::Precondition).describe(),
        "the login cannot be attempted as asked"
    );
}

#[test]
fn copies_are_equal_to_what_they_copy() {
    let results = [
        LoginResult::Success,
        LoginResult::Rejected(Rejection::Server { code: Some("E1".to_string()), message: None }),
        LoginResult::Rejected(Rejection::IpMismatch {
            requested: "a".to_string(),
            reported: "b".to_string(),
        }),
        LoginResult::Failed(Failure::Transport(timeout())),
        LoginResult::Failed(Failure::MalformedResponse),
        LoginResult::Failed(Failure::Precondition),
    ];
    for result in results {
        assert_eq!(result.duplicate(), result);
    }
}
