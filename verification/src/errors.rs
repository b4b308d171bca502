//! The errors that the engine reports to its callers.

use crate::journal::{update_models, BalanceUpdate, UpdateModel};
use crate::permissions::Permissions;
use vstd::prelude::*;

verus! {

/// Why a command or a lookup was refused.
#[derive(Clone, Debug, PartialEq, Eq)]
pub enum KnownErrors {
    /// The caller's session carries no identifier.
    SessionIdNotFound,
    /// No user goes by this name.
    UsernameNotFound { username: String },
    /// The password does not match the user's credentials.
    LoginFailed { username: String, password: String },
    /// The two passwords given at sign-up differ.
    SignupPasswordMismatch { username: String },
    /// The user that a command names does not exist.
    UserDoesntExist,
    /// The name asked for at sign-up is taken.
    UserExists { username: String },
    /// The lines of an entry do not sum to zero; carries the lines.
    BalanceMismatch { attempted_transaction: Vec<BalanceUpdate> },
    /// The caller lacks a capability; carries the capability.
    PermissionError { required_permissions: Permissions },
    /// An amount is no number, or lies outside what a balance can hold.
    InvalidInput,
    /// No invitation to the journal is pending for the user.
    NoInvitation,
    /// The session belongs to no logged-in user.
    NotLoggedIn,
    /// A stored event belongs to another kind of aggregate than the one asked for.
    TypeMismatch,
    /// The event store could not take or give an event.
    StoreError,
    /// The credential hasher failed.
    CredentialError,
}

/// A [`KnownErrors`] as a mathematical value.
pub enum ErrorModel {
    SessionIdNotFound,
    UsernameNotFound { username: Seq<char> },
    LoginFailed { username: Seq<char>, password: Seq<char> },
    SignupPasswordMismatch { username: Seq<char> },
    UserDoesntExist,
    UserExists { username: Seq<char> },
    BalanceMismatch { attempted_transaction: Seq<UpdateModel> },
    PermissionError { required_permissions: u16 },
    InvalidInput,
    NoInvitation,
    NotLoggedIn,
    TypeMismatch,
    StoreError,
    CredentialError,
}

impl View for KnownErrors {
    type V = ErrorModel;

    open spec fn view(&self) -> ErrorModel {
        match *self {
            KnownErrors::SessionIdNotFound => ErrorModel::SessionIdNotFound,
            KnownErrors::UsernameNotFound { username } => ErrorModel::UsernameNotFound {
                username: username@,
            },
            KnownErrors::LoginFailed { username, password } => ErrorModel::LoginFailed {
                username: username@,
                password: password@,
            },
            KnownErrors::SignupPasswordMismatch {
                username,
            } => ErrorModel::SignupPasswordMismatch { username: username@ },
            KnownErrors::UserDoesntExist => ErrorModel::UserDoesntExist,
            KnownErrors::UserExists { username } => ErrorModel::UserExists { username: username@ },
            KnownErrors::BalanceMismatch { attempted_transaction } => ErrorModel::BalanceMismatch {
                attempted_transaction: update_models(attempted_transaction@),
            },
            KnownErrors::PermissionError { required_permissions } => ErrorModel::PermissionError {
                required_permissions: required_permissions@,
            },
            KnownErrors::InvalidInput => ErrorModel::InvalidInput,
            KnownErrors::NoInvitation => ErrorModel::NoInvitation,
            KnownErrors::NotLoggedIn => ErrorModel::NotLoggedIn,
            KnownErrors::TypeMismatch => ErrorModel::TypeMismatch,
            KnownErrors::StoreError => ErrorModel::StoreError,
            KnownErrors::CredentialError => ErrorModel::CredentialError,
        }
    }
}

} // verus!
