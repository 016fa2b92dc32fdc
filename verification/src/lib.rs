//! A client for the login of a campus network's captive portal.
//!
//! A login is one pass through a fixed protocol. The server hands out a
//! challenge token. The client seals its credentials under that token (the
//! cipher of [`cipher`], written over the alphabet of [`radix`], put
//! together in [`xencode`]), takes a checksum over the protocol's fields in
//! their fixed order ([`checksum`]), submits both, and reads the server's
//! answer ([`json`], [`reply`]).
//!
//! The library computes and decides; it does not talk to the network. The
//! session in [`srun`] is a state machine that is told what happened and
//! says what to do next, so that it can be run over any transport, or
//! over none.

pub mod checksum;
pub mod cipher;
pub mod digest;
pub mod hex;
pub mod json;
pub mod outcome;
pub mod radix;
pub mod reply;
pub mod srun;
pub mod text;
pub mod user;
pub mod utils;
pub mod xencode;

pub use srun::SrunClient;
pub use user::User;
pub use xencode::param_i;

use crate::srun::{default_config, ClientView, StateView};
use crate::user::UserView;
use vstd::prelude::*;

verus! {

/// How a login is made. Everything is off unless switched on.
#[derive(Clone, Copy, Debug, PartialEq, Eq, Structural)]
pub struct LoginOptions {
    /// Find the address to log in where the caller names none.
    pub detect_ip: bool,
    /// Take a login for failed where the server logged in another address
    /// than the one asked for.
    pub strict_bind: bool,
    /// Test the network first, and do nothing where it is already open.
    pub test_before_login: bool,
}

impl Default for LoginOptions {
    fn default() -> (options: LoginOptions)
        ensures
            options == (LoginOptions {
                detect_ip: false,
                strict_bind: false,
                test_before_login: false,
            }),
    {
        LoginOptions { detect_ip: false, strict_bind: false, test_before_login: false }
    }
}


/// The address of the campus login server.
pub const SERVER: &'static str = "http://172.16.130.31/";

/// Sets up a login at the campus server for a name and a password, with the
/// options given. The session that comes back has not started: whoever runs
/// it hands it `Event::Start` and performs the actions that it answers with.
pub fn login_with_options(username: &str, password: &str, options: &LoginOptions) -> (client:
    SrunClient)
    ensures
        client@ == (ClientView {
            config: default_config(SERVER@),
            user: UserView { username: username@, password: password@, ip: None },
            options: *options,
            state: StateView::Idle,
        }),
{
    let user = User { username: username.to_owned(), password: password.to_owned(), ip: None };
    SrunClient::new_from_user(SERVER, user).set_detect_ip(options.detect_ip).set_strict_bind(
        options.strict_bind,
    ).set_test_before_login(options.test_before_login)
}

/// Sets up a login at the campus server for a name and a password, with
/// address detection on or off and every other option off.
pub fn srun_login(username: &str, password: &str, detect_ip: bool) -> (client: SrunClient)
    ensures
        client@ == (ClientView {
            config: default_config(SERVER@),
            user: UserView { username: username@, password: password@, ip: None },
            options: LoginOptions { detect_ip, strict_bind: false, test_before_login: false },
            state: StateView::Idle,
        }),
{
    let user = User { username: username.to_owned(), password: password.to_owned(), ip: None };
    SrunClient::new_from_user(SERVER, user).set_detect_ip(detect_ip)
}

} // verus!
