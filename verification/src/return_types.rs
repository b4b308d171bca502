//! What the queries hand back.

use crate::ids::AggregateId;
use crate::journal::{JournalTenantInfo, Transaction, TransactionModel};
use vstd::prelude::*;

verus! {

/// A journal that a user has to do with.
#[derive(Clone, Debug, PartialEq, Eq)]
pub enum AssociatedJournal {
    /// A journal that the user owns.
    Owned { id: AggregateId, name: String },
    /// A journal that the user was invited to, with what the invitation grants.
    Shared { id: AggregateId, name: String, tenant_info: JournalTenantInfo },
}

/// An [`AssociatedJournal`] as a mathematical value.
pub enum AssociatedJournalModel {
    Owned { id: AggregateId, name: Seq<char> },
    Shared { id: AggregateId, name: Seq<char>, tenant_info: JournalTenantInfo },
}

impl View for AssociatedJournal {
    type V = AssociatedJournalModel;

    open spec fn view(&self) -> AssociatedJournalModel {
        match *self {
            AssociatedJournal::Owned { id, name } => AssociatedJournalModel::Owned {
                id,
                name: name@,
            },
            AssociatedJournal::Shared { id, name, tenant_info } => AssociatedJournalModel::Shared {
                id,
                name: name@,
                tenant_info,
            },
        }
    }
}

/// The views of a list of journals.
pub open spec fn associated_models(list: Seq<AssociatedJournal>) -> Seq<AssociatedJournalModel> {
    list.map_values(|j: AssociatedJournal| j@)
}

/// A recorded entry with the time at which it was recorded.
#[derive(Clone, Debug, PartialEq, Eq)]
pub struct TransactionWithTimeStamp {
    pub transaction: Transaction,
    pub timestamp: i64,
}

/// A [`TransactionWithTimeStamp`] as a mathematical value.
pub struct TimedTransactionModel {
    pub transaction: TransactionModel,
    pub timestamp: int,
}

impl View for TransactionWithTimeStamp {
    type V = TimedTransactionModel;

    open spec fn view(&self) -> TimedTransactionModel {
        TimedTransactionModel {
            transaction: self.transaction@,
            timestamp: self.timestamp as int,
        }
    }
}

/// The views of a list of timed transactions.
pub open spec fn timed_models(list: Seq<TransactionWithTimeStamp>) -> Seq<TimedTransactionModel> {
    list.map_values(|t: TransactionWithTimeStamp| t@)
}

} // verus!
