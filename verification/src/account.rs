//! The account description a mailbox session is opened with.

use vstd::prelude::*;

verus! {

/// Ghost model of an [`Account`].
pub struct AccountModel {
    pub username: Seq<char>,
    pub password: Seq<char>,
    pub domain: Seq<char>,
    pub port: u16,
    pub secure: bool,
}

/// The connection settings of one mail account. Loaded once from
/// configuration; each account runs its own independent scan loop.
#[derive(Debug)]
pub struct Account {
    pub username: String,
    pub password: String,
    pub domain: String,
    pub port: u16,
    pub secure: bool,
}

impl View for Account {
    type V = AccountModel;

    open spec fn view(&self) -> AccountModel {
        AccountModel {
            username: self.username@,
            password: self.password@,
            domain: self.domain@,
            port: self.port,
            secure: self.secure,
        }
    }
}

impl Account {
    /// Builds an account from its settings.
    pub fn new(username: String, password: String, domain: String, port: u16, secure: bool) -> (r:
        Account)
        ensures
            r@.username == username@,
            r@.password == password@,
            r@.domain == domain@,
            r@.port == port,
            r@.secure == secure,
    {
        Account { username, password, domain, port, secure }
    }
}

} // verus!
