//! The double-entry rule: the lines of an entry must sum to zero before the
//! entry may become an event.

use crate::amounts::{parse_amount, parsed_amount};
use crate::errors::{ErrorModel, KnownErrors};
use crate::ids::AggregateId;
use crate::journal::{
    is_balance, total_change, update_models, BalanceUpdate, Transaction, TransactionModel,
    UpdateModel,
};
use vstd::prelude::*;

verus! {

/// The views of a list of texts.
pub open spec fn texts(list: Seq<String>) -> Seq<Seq<char>> {
    list.map_values(|s: String| s@)
}

/// The lines that a request makes.
///
/// A request is three lists of one length: account names, amounts added and
/// amounts removed. Each place makes the line of its account with the amount
/// added less the amount removed; a place where the two are equal makes no
/// line. A request makes no lines at all where the lists differ in length,
/// where an amount cannot be read, or where a difference is no balance.
pub open spec fn net_lines(
    names: Seq<Seq<char>>,
    added: Seq<Seq<char>>,
    removed: Seq<Seq<char>>,
) -> Option<Seq<UpdateModel>>
    decreases names.len(),
{
    if names.len() != added.len() || names.len() != removed.len() {
        None
    } else if names.len() == 0 {
        Some(Seq::empty())
    } else {
        match (
            net_lines(names.drop_last(), added.drop_last(), removed.drop_last()),
            parsed_amount(added.last()),
            parsed_amount(removed.last()),
        ) {
            (Some(lines), Some(plus), Some(minus)) => if !is_balance(plus - minus) {
                None
            } else if plus == minus {
                Some(lines)
            } else {
                Some(
                    lines.push(
                        UpdateModel { account_name: names.last(), changed_by: plus - minus },
                    ),
                )
            },
            _ => None,
        }
    }
}

/// What becomes of a request: the transaction to record, or the reason why
/// nothing is recorded.
pub open spec fn entry_decision(
    author: AggregateId,
    names: Seq<Seq<char>>,
    added: Seq<Seq<char>>,
    removed: Seq<Seq<char>>,
) -> Result<TransactionModel, ErrorModel> {
    match net_lines(names, added, removed) {
        None => Err(ErrorModel::InvalidInput),
        Some(lines) => if total_change(lines) != 0 {
            Err(ErrorModel::BalanceMismatch { attempted_transaction: lines })
        } else {
            Ok(TransactionModel { author, updates: lines })
        },
    }
}

proof fn lemma_no_lines_from_prefix(
    names: Seq<Seq<char>>,
    added: Seq<Seq<char>>,
    removed: Seq<Seq<char>>,
    n: int,
)
    requires
        names.len() == added.len(),
        names.len() == removed.len(),
        0 <= n <= names.len(),
        net_lines(names.take(n), added.take(n), removed.take(n)) is None,
    ensures
        net_lines(names, added, removed) is None,
    decreases names.len(),
{
    if n == names.len() {
        assert(names.take(n) =~= names);
        assert(added.take(n) =~= added);
        assert(removed.take(n) =~= removed);
    } else {
        assert(names.drop_last().take(n) =~= names.take(n));
        assert(added.drop_last().take(n) =~= added.take(n));
        assert(removed.drop_last().take(n) =~= removed.take(n));
        lemma_no_lines_from_prefix(names.drop_last(), added.drop_last(), removed.drop_last(), n);
    }
}

proof fn lemma_total_is_bounded(lines: Seq<UpdateModel>)
    requires
        forall|i: int| 0 <= i < lines.len() ==> is_balance(#[trigger] lines[i].changed_by),
    ensures
        -0x8000_0000_0000_0000 * lines.len() <= total_change(lines) <= 0x8000_0000_0000_0000
            * lines.len(),
    decreases lines.len(),
{
    if lines.len() > 0 {
        assert(is_balance(lines[lines.len() - 1].changed_by));
        assert forall|i: int| 0 <= i < lines.drop_last().len() implies is_balance(
            #[trigger] lines.drop_last()[i].changed_by,
        ) by {
            assert(lines.drop_last()[i] == lines[i]);
        }
        lemma_total_is_bounded(lines.drop_last());
    }
}

/// Checks a request against the double-entry rule and makes its transaction.
///
/// The request is refused with `InvalidInput` where it makes no lines, and
/// with `BalanceMismatch`, which carries the lines, where they do not sum to
/// zero. Otherwise the one transaction that holds all the lines comes back.
pub fn balance_entry(
    author: AggregateId,
    account_names: &Vec<String>,
    balance_add_cents: &Vec<String>,
    balance_remove_cents: &Vec<String>,
) -> (entry: Result<Transaction, KnownErrors>)
    ensures
        match entry_decision(
            author,
            texts(account_names@),
            texts(balance_add_cents@),
            texts(balance_remove_cents@),
        ) {
            Ok(transaction) => entry matches Ok(t) && t@ == transaction,
            Err(error) => entry matches Err(e) && e@ == error,
        },
        entry matches Ok(t) ==> total_change(t@.updates) == 0,
{
    let ghost names = texts(account_names@);
    let ghost added = texts(balance_add_cents@);
    let ghost removed = texts(balance_remove_cents@);
    if account_names.len() != balance_add_cents.len() || account_names.len()
        != balance_remove_cents.len() {
        return Err(KnownErrors::InvalidInput);
    }
    let mut updates: Vec<BalanceUpdate> = Vec::new();
    let mut total: i128 = 0;
    let mut i: usize = 0;
    proof {
        assert(names.take(0) =~= Seq::<Seq<char>>::empty());
        assert(added.take(0) =~= Seq::<Seq<char>>::empty());
        assert(removed.take(0) =~= Seq::<Seq<char>>::empty());
        assert(update_models(updates@) =~= Seq::<UpdateModel>::empty());
    }
    while i < account_names.len()
        invariant
            names == texts(account_names@),
            added == texts(balance_add_cents@),
            removed == texts(balance_remove_cents@),
            names.len() == added.len(),
            names.len() == removed.len(),
            i <= account_names.len(),
            updates@.len() <= i,
            net_lines(names.take(i as int), added.take(i as int), removed.take(i as int)) == Some(
                update_models(updates@),
            ),
            forall|k: int|
                0 <= k < updates@.len() ==> is_balance(
                    #[trigger] update_models(updates@)[k].changed_by,
                ),
            total == total_change(update_models(updates@)),
        decreases account_names.len() - i,
    {
        proof {
            let n = i as int;
            assert(names.take(n + 1).drop_last() =~= names.take(n));
            assert(added.take(n + 1).drop_last() =~= added.take(n));
            assert(removed.take(n + 1).drop_last() =~= removed.take(n));
            assert(names.take(n + 1).last() == account_names@[n]@);
            assert(added.take(n + 1).last() == balance_add_cents@[n]@);
            assert(removed.take(n + 1).last() == balance_remove_cents@[n]@);
            lemma_total_is_bounded(update_models(updates@));
        }
        let plus = parse_amount(balance_add_cents[i].as_str());
        let minus = parse_amount(balance_remove_cents[i].as_str());
        let net: Option<i64> = match (plus, minus) {
            (Some(p), Some(m)) => p.checked_sub(m),
            _ => None,
        };
        match net {
            Some(change) => {
                if change != 0 {
                    let ghost lines = update_models(updates@);
                    let update = BalanceUpdate {
                        account_name: account_names[i].clone(),
                        changed_by: change,
                    };
                    updates.push(update);
                    assert(update_models(updates@) =~= lines.push(update@));
                    assert(update_models(updates@).drop_last() =~= lines);
                    total = total + change as i128;
                }
            },
            None => {
                proof {
                    lemma_no_lines_from_prefix(names, added, removed, i + 1);
                }
                return Err(KnownErrors::InvalidInput);
            },
        }
        i += 1;
    }
    proof {
        assert(names.take(i as int) =~= names);
        assert(added.take(i as int) =~= added);
        assert(removed.take(i as int) =~= removed);
    }
    if total != 0 {
        Err(KnownErrors::BalanceMismatch { attempted_transaction: updates })
    } else {
        Ok(Transaction { author, updates })
    }
}

} // verus!
