//! The credentials of one login.

use crate::text::copy_text;
use vstd::prelude::*;

verus! {

/// Who logs in: a name, a password (empty where there is none), and the
/// address to log in, where the caller names one.
#[derive(Debug, Clone)]
pub struct User {
    pub username: String,
    pub password: String,
    pub ip: Option<String>,
}

/// A `User` as plain values.
pub struct UserView {
    pub username: Seq<char>,
    pub password: Seq<char>,
    pub ip: Option<Seq<char>>,
}

impl View for User {
    type V = UserView;

    open spec fn view(&self) -> UserView {
        UserView {
            username: self.username@,
            password: self.password@,
            ip: self.ip.deep_view(),
        }
    }
}

impl Default for User {
    /// No name, no password, no address.
    fn default() -> (user: User)
        ensures
            user@ == (UserView {
                username: Seq::<char>::empty(),
                password: Seq::<char>::empty(),
                ip: None,
            }),
    {
        User { username: String::new(), password: String::new(), ip: None }
    }
}


impl User {
    /// A copy of these credentials.
    pub fn duplicate(&self) -> (r: User)
        ensures
            r@ == self@,
    {
        User {
            username: self.username.clone(),
            password: self.password.clone(),
            ip: copy_text(&self.ip),
        }
    }
}

} // verus!
