//! Stored accounts, and an account about to be stored.

use vstd::prelude::*;

verus! {

/// A share-portfolio login as it is stored.
#[derive(Debug, Clone)]
pub struct Account {
    pub id: i64,
    pub name: String,
    pub client_id: i64,
    pub username: String,
    pub password: String,
    pub demat: String,
    pub client_code: String,
}

/// An account with every text taken by its characters.
pub struct AccountView {
    pub id: i64,
    pub name: Seq<char>,
    pub client_id: i64,
    pub username: Seq<char>,
    pub password: Seq<char>,
    pub demat: Seq<char>,
    pub client_code: Seq<char>,
}

impl View for Account {
    type V = AccountView;

    open spec fn view(&self) -> AccountView {
        AccountView {
            id: self.id,
            name: self.name@,
            client_id: self.client_id,
            username: self.username@,
            password: self.password@,
            demat: self.demat@,
            client_code: self.client_code@,
        }
    }
}

/// The fields of an account that the add form asks for; the store gives it
/// its id.
#[derive(Debug, Clone, PartialEq, Eq)]
pub struct NewAccount {
    pub name: String,
    pub client_id: i64,
    pub username: String,
    pub password: String,
    pub demat: String,
    pub client_code: String,
}

pub struct NewAccountView {
    pub name: Seq<char>,
    pub client_id: i64,
    pub username: Seq<char>,
    pub password: Seq<char>,
    pub demat: Seq<char>,
    pub client_code: Seq<char>,
}

impl View for NewAccount {
    type V = NewAccountView;

    open spec fn view(&self) -> NewAccountView {
        NewAccountView {
            name: self.name@,
            client_id: self.client_id,
            username: self.username@,
            password: self.password@,
            demat: self.demat@,
            client_code: self.client_code@,
        }
    }
}

/// The views of a sequence of accounts.
pub open spec fn account_views(v: Seq<Account>) -> Seq<AccountView> {
    v.map_values(|a: Account| a@)
}

} // verus!
