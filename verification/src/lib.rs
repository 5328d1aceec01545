//! A client for the membership records of a church unit: it plans the browser
//! sign-in that yields the session headers, names the address and headers of
//! every report request, reshapes what the reports return, and lays out a
//! printable photo directory.
use vstd::prelude::*;

pub mod buckets;
pub mod client;
pub mod data;
pub mod error;
pub mod headers;
pub mod login;
pub mod names;
pub mod report;
pub mod text;
pub mod visual_directory;

verus! {

/// What `Credentials` holds.
pub struct CredentialsView {
    pub username: Seq<char>,
    pub password: Seq<char>,
}

/// Who signs in. Both values are given once and never change.
#[derive(Debug, Clone)]
pub struct Credentials {
    username: String,
    password: String,
}

impl View for Credentials {
    type V = CredentialsView;

    closed spec fn view(&self) -> CredentialsView {
        CredentialsView { username: self.username@, password: self.password@ }
    }
}

impl Credentials {
    /// The credentials of the user `username` with the password `password`.
    #[must_use]
    pub fn new(username: &str, password: &str) -> (credentials: Self)
        ensures
            credentials@ == (CredentialsView { username: username@, password: password@ }),
    {
        Self { username: username.to_owned(), password: password.to_owned() }
    }

    /// The user's name.
    pub fn username(&self) -> (username: &str)
        ensures
            username@ == self@.username,
    {
        self.username.as_str()
    }

    /// The user's password.
    pub fn password(&self) -> (password: &str)
        ensures
            password@ == self@.password,
    {
        self.password.as_str()
    }
}

} // verus!
