//! The permission gate: what a user may do to a journal.
//!
//! The owner of a journal may do everything. Another user may do what an
//! accepted invitation grants.

use crate::errors::{ErrorModel, KnownErrors};
use crate::ids::AggregateId;
use crate::permissions::{covers, first_missing, Permissions};
use crate::user::{UserModel, UserState};
use vstd::prelude::*;

verus! {

broadcast use vstd::std_specs::hash::group_hash_axioms;

/// Whether `user` owns the journal.
pub open spec fn owns(user: UserModel, journal_id: AggregateId) -> bool {
    user.owned_journals.contains(journal_id)
}

/// Whether `user` may do to the journal what takes the capabilities `required`.
pub open spec fn may(user: UserModel, journal_id: AggregateId, required: u16) -> bool {
    owns(user, journal_id) || (user.accepted_journal_invites.contains_key(journal_id) && covers(
        user.accepted_journal_invites[journal_id].tenant_permissions@,
        required,
    ))
}

/// Whether `user` may invite to the journal with the capabilities `requested`:
/// the journal's owner, whose name goes into the invitation, or the reason why not.
///
/// An owner may grant anything. A tenant, who holds an accepted invitation to
/// the journal, may grant what the tenant holds and nothing else; the owner
/// that the tenant's invitation names is passed on. A tenant who asks to grant
/// more is refused with the lowest capability that is asked for and not held.
/// Whoever is neither owner nor tenant holds nothing and is refused with the
/// lowest capability asked for, or with the empty set where none is asked for.
pub open spec fn grant(user: UserModel, journal_id: AggregateId, requested: u16) -> Result<
    AggregateId,
    ErrorModel,
> {
    if owns(user, journal_id) {
        Ok(user.id)
    } else if user.accepted_journal_invites.contains_key(journal_id) {
        let held = user.accepted_journal_invites[journal_id];
        match first_missing(held.tenant_permissions@, requested) {
            Some(flag) => Err(ErrorModel::PermissionError { required_permissions: flag }),
            None => Ok(held.journal_owner),
        }
    } else {
        match first_missing(0, requested) {
            Some(flag) => Err(ErrorModel::PermissionError { required_permissions: flag }),
            None => Err(ErrorModel::PermissionError { required_permissions: requested }),
        }
    }
}

/// Lets `user` pass where the user may do what takes `required`; refuses with
/// `PermissionError`, which carries `required`, where not.
pub fn authorize(user: &UserState, journal_id: AggregateId, required: Permissions) -> (pass: Result<
    (),
    KnownErrors,
>)
    ensures
        pass is Ok <==> may(user@, journal_id, required@),
        pass matches Err(error) ==> error@ == (ErrorModel::PermissionError {
            required_permissions: required@,
        }),
{
    if user.owned_journals.contains(&journal_id) {
        return Ok(());
    }
    match user.accepted_journal_invites.get(&journal_id) {
        Some(held) => {
            if held.tenant_permissions.contains(required) {
                Ok(())
            } else {
                Err(KnownErrors::PermissionError { required_permissions: required })
            }
        },
        None => Err(KnownErrors::PermissionError { required_permissions: required }),
    }
}

/// Decides whether `user` may invite to the journal with the capabilities
/// `requested`, and gives the journal's owner where so.
pub fn authorize_invitation(
    user: &UserState,
    journal_id: AggregateId,
    requested: Permissions,
) -> (owner: Result<AggregateId, KnownErrors>)
    ensures
        match grant(user@, journal_id, requested@) {
            Ok(id) => owner == Ok::<AggregateId, KnownErrors>(id),
            Err(error) => owner matches Err(e) && e@ == error,
        },
{
    if user.owned_journals.contains(&journal_id) {
        return Ok(user.id);
    }
    match user.accepted_journal_invites.get(&journal_id) {
        Some(held) => match held.tenant_permissions.first_missing(requested) {
            Some(flag) => Err(KnownErrors::PermissionError { required_permissions: flag }),
            None => Ok(held.journal_owner),
        },
        None => match Permissions::empty().first_missing(requested) {
            Some(flag) => Err(KnownErrors::PermissionError { required_permissions: flag }),
            None => Err(KnownErrors::PermissionError { required_permissions: requested }),
        },
    }
}

} // verus!
