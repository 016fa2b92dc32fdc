//! What the server's two answers say: the challenge, and the reply to a
//! login request.

use crate::json::{member_of, members_in, Members};
use vstd::prelude::*;

verus! {

/// The member that holds the challenge token.
pub const KEY_TOKEN: &'static str = "challenge";

/// The member in which the server reports the address it sees.
pub const KEY_CLIENT_IP: &'static str = "client_ip";

/// The member that names the access point.
pub const KEY_AC_ID: &'static str = "ac_id";

/// The member that says how a login went.
pub const KEY_STATUS: &'static str = "res";

/// The member that holds an error code.
pub const KEY_CODE: &'static str = "ecode";

/// The member that holds a message for the user.
pub const KEY_MESSAGE: &'static str = "error_msg";

/// The member in which the server reports the address it logged in.
pub const KEY_ONLINE_IP: &'static str = "online_ip";

/// What the status member holds after a login that went through.
pub const STATUS_OK: &'static str = "ok";

/// A challenge: the token, and what the server reported with it. It serves
/// one login attempt.
#[derive(Debug, Clone, PartialEq, Eq)]
pub struct Challenge {
    pub token: String,
    pub client_ip: Option<String>,
    pub ac_id: Option<String>,
}

/// A `Challenge` as plain values.
pub struct ChallengeView {
    pub token: Seq<char>,
    pub client_ip: Option<Seq<char>>,
    pub ac_id: Option<Seq<char>>,
}

impl View for Challenge {
    type V = ChallengeView;

    open spec fn view(&self) -> ChallengeView {
        ChallengeView {
            token: self.token@,
            client_ip: self.client_ip.deep_view(),
            ac_id: self.ac_id.deep_view(),
        }
    }
}

/// The server's reply to a login request, member by member.
#[derive(Debug, Clone, PartialEq, Eq)]
pub struct LoginReply {
    pub status: Option<String>,
    pub code: Option<String>,
    pub message: Option<String>,
    pub ip: Option<String>,
}

/// A `LoginReply` as plain values.
pub struct LoginReplyView {
    pub status: Option<Seq<char>>,
    pub code: Option<Seq<char>>,
    pub message: Option<Seq<char>>,
    pub ip: Option<Seq<char>>,
}

impl View for LoginReply {
    type V = LoginReplyView;

    open spec fn view(&self) -> LoginReplyView {
        LoginReplyView {
            status: self.status.deep_view(),
            code: self.code.deep_view(),
            message: self.message.deep_view(),
            ip: self.ip.deep_view(),
        }
    }
}

/// The challenge that three members make: there is one where the token is
/// there and not empty.
pub open spec fn challenge_from(
    token: Option<Seq<char>>,
    client_ip: Option<Seq<char>>,
    ac_id: Option<Seq<char>>,
) -> Option<ChallengeView> {
    match token {
        Some(t) => if t.len() > 0 {
            Some(ChallengeView { token: t, client_ip, ac_id })
        } else {
            None
        },
        None => None,
    }
}

/// The challenge in a response body.
pub open spec fn challenge_in(body: Seq<u8>) -> Option<ChallengeView> {
    match members_in(body) {
        Some(members) => challenge_from(
            member_of(members, KEY_TOKEN@),
            member_of(members, KEY_CLIENT_IP@),
            member_of(members, KEY_AC_ID@),
        ),
        None => None,
    }
}

/// The login reply in a response body: every body that holds a JSON value
/// has one, with the members that are missing left out.
pub open spec fn login_reply_in(body: Seq<u8>) -> Option<LoginReplyView> {
    match members_in(body) {
        Some(members) => Some(
            LoginReplyView {
                status: member_of(members, KEY_STATUS@),
                code: member_of(members, KEY_CODE@),
                message: member_of(members, KEY_MESSAGE@),
                ip: member_of(members, KEY_ONLINE_IP@),
            },
        ),
        None => None,
    }
}

/// Makes a challenge of the three members read from a response: `None`
/// where the token is missing or empty.
pub fn make_challenge(
    token: Option<String>,
    client_ip: Option<String>,
    ac_id: Option<String>,
) -> (r: Option<Challenge>)
    ensures
        match r {
            Some(c) => challenge_from(token.deep_view(), client_ip.deep_view(), ac_id.deep_view())
                == Some(c@),
            None => challenge_from(token.deep_view(), client_ip.deep_view(), ac_id.deep_view())
                is None,
        },
{
    match token {
        Some(t) => {
            if t.as_str().is_empty() {
                None
            } else {
                Some(Challenge { token: t, client_ip, ac_id })
            }
        },
        None => None,
    }
}

/// Reads the challenge out of a response body. `None` where the body is
/// malformed: no JSON in either of the two forms, or no token in it.
pub fn read_challenge(body: &[u8]) -> (r: Option<Challenge>)
    ensures
        match r {
            Some(c) => challenge_in(body@) == Some(c@),
            None => challenge_in(body@) is None,
        },
{
    match Members::read(body) {
        Some(members) => make_challenge(
            members.text(KEY_TOKEN),
            members.text(KEY_CLIENT_IP),
            members.text(KEY_AC_ID),
        ),
        None => None,
    }
}

/// Reads the login reply out of a response body. `None` where the body
/// holds no JSON in either of the two forms.
pub fn read_login_reply(body: &[u8]) -> (r: Option<LoginReply>)
    ensures
        match r {
            Some(reply) => login_reply_in(body@) == Some(reply@),
            None => login_reply_in(body@) is None,
        },
{
    match Members::read(body) {
        Some(members) => Some(
            LoginReply {
                status: members.text(KEY_STATUS),
                code: members.text(KEY_CODE),
                message: members.text(KEY_MESSAGE),
                ip: members.text(KEY_ONLINE_IP),
            },
        ),
        None => None,
    }
}

} // verus!
