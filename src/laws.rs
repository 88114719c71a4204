use vstd::prelude::*;

use crate::errors::{ClientError, Error, TransactionError};
use crate::state::{
    available_of, exported, fits, fresh_client, in_limit, is_locked, next, outcome, valid,
    with_client, StateView,
};
use crate::transaction::{Transaction, TransactionType};

verus! {

/// The state after applying every record of `txs` to `s`, in order.
pub open spec fn run(s: StateView, txs: Seq<Transaction>) -> StateView
    decreases txs.len(),
{
    if txs.len() == 0 {
        s
    } else {
        next(run(s, txs.drop_last()), txs.last())
    }
}

/// An accepted deposit raises its client's available funds by exactly its
/// amount, and the ledger then maps its ID to it.
pub proof fn lemma_deposit_credits(s: StateView, tx: Transaction)
    requires
        valid(s),
        tx.is_valid(),
        tx.kind == TransactionType::Deposit,
        outcome(s, tx) is Ok,
        fits(s, tx),
    ensures
        available_of(next(s, tx), tx.client) == available_of(s, tx.client) + tx.amount_units(),
        next(s, tx).transactions.contains_key(tx.id),
        next(s, tx).transactions[tx.id] == tx,
{
}

/// A withdrawal with a new ID on an unlocked account is accepted exactly when
/// its amount is below the available funds, and then lowers them by exactly
/// that amount; otherwise, the boundary of equality included, it is refused
/// for insufficient funds, and no more than the account's creation happens.
pub proof fn lemma_withdrawal(s: StateView, tx: Transaction)
    requires
        valid(s),
        tx.is_valid(),
        tx.kind == TransactionType::Withdrawal,
        !s.transactions.contains_key(tx.id),
        !is_locked(s, tx.client),
        fits(s, tx),
    ensures
        tx.amount_units() < available_of(s, tx.client) ==> {
            &&& outcome(s, tx) is Ok
            &&& available_of(next(s, tx), tx.client) == available_of(s, tx.client)
                - tx.amount_units()
        },
        tx.amount_units() >= available_of(s, tx.client) ==> {
            &&& outcome(s, tx) == Err::<(), Error>(
                Error::Client(ClientError::InsufficientFunds(tx.id)),
            )
            &&& next(s, tx) == with_client(s, tx.client)
        },
{
}

/// An accepted dispute moves the referenced amount from available to held,
/// and a second dispute of the same transaction is then refused.
pub proof fn lemma_dispute(s: StateView, tx: Transaction)
    requires
        valid(s),
        tx.is_valid(),
        tx.kind == TransactionType::Dispute,
        outcome(s, tx) is Ok,
        fits(s, tx),
    ensures
        ({
            let a = s.transactions[tx.id].amount_units();
            let after = next(s, tx);
            &&& after.clients[tx.client].held.units == s.clients[tx.client].held.units + a
            &&& after.clients[tx.client].available.units == s.clients[tx.client].available.units
                - a
        }),
        outcome(next(s, tx), tx) == Err::<(), Error>(
            Error::Transaction(TransactionError::DisputeAlreadyExists(tx.id)),
        ),
{
}

/// An accepted chargeback locks its client's account.
pub proof fn lemma_chargeback_locks(s: StateView, tx: Transaction)
    requires
        valid(s),
        tx.is_valid(),
        tx.kind == TransactionType::Chargeback,
        outcome(s, tx) is Ok,
    ensures
        is_locked(next(s, tx), tx.client),
{
}

/// A locked account stays locked whatever records follow.
pub proof fn lemma_lock_persists(s: StateView, c: u16, txs: Seq<Transaction>)
    requires
        is_locked(s, c),
    ensures
        is_locked(run(s, txs), c),
    decreases txs.len(),
{
    if txs.len() > 0 {
        lemma_lock_persists(s, c, txs.drop_last());
    }
}

/// Once an account is locked, every later record of its client is refused.
pub proof fn lemma_locked_refuses(s: StateView, c: u16, txs: Seq<Transaction>)
    requires
        is_locked(s, c),
    ensures
        forall|i: int|
            0 <= i < txs.len() && (#[trigger] txs[i]).client == c ==> outcome(
                run(s, txs.take(i)),
                txs[i],
            ) is Err,
{
    assert forall|i: int| 0 <= i < txs.len() && (#[trigger] txs[i]).client == c implies outcome(
        run(s, txs.take(i)),
        txs[i],
    ) is Err by {
        lemma_lock_persists(s, c, txs.take(i));
    }
}

/// A refused record leaves the ledger, the dispute markers and every existing
/// account exactly as they were; at most it creates its client's account,
/// with zero balances and unlocked.
pub proof fn lemma_refusal_keeps_state(s: StateView, tx: Transaction)
    requires
        valid(s),
        tx.is_valid(),
        outcome(s, tx) is Err,
    ensures
        next(s, tx).transactions == s.transactions,
        next(s, tx).disputes == s.disputes,
        forall|k: u16|
            #[trigger] s.clients.contains_key(k) ==> next(s, tx).clients.contains_key(k)
                && next(s, tx).clients[k] == s.clients[k],
        forall|k: u16|
            #[trigger] next(s, tx).clients.contains_key(k) && !s.clients.contains_key(k) ==> k
                == tx.client && next(s, tx).clients[k] == fresh_client(k),
{
}

/// Every step that stays within the balance limit keeps the engine's
/// invariant: account IDs unique and in creation order, balances in range,
/// and each ledger entry a valid deposit or withdrawal of an existing client.
pub proof fn lemma_next_valid(s: StateView, tx: Transaction)
    requires
        valid(s),
        tx.is_valid(),
        fits(s, tx),
    ensures
        valid(next(s, tx)),
{
    let s1 = with_client(s, tx.client);
    assert(valid(s1)) by {
        if !s.clients.contains_key(tx.client) {
            assert(!s.order.contains(tx.client));
            assert forall|k: u16| #[trigger] s1.clients.contains_key(k) implies s1.order.contains(
                k,
            ) by {
                if k != tx.client {
                    let j = choose|j: int| 0 <= j < s.order.len() && s.order[j] == k;
                    assert(s1.order[j] == k);
                } else {
                    assert(s1.order[s1.order.len() - 1] == k);
                }
            }
            assert forall|i: int| 0 <= i < s1.order.len() implies s1.clients.contains_key(
                #[trigger] s1.order[i],
            ) by {
                if i < s.order.len() {
                    assert(s1.order[i] == s.order[i]);
                }
            }
        }
    }
    let n = next(s, tx);
    if outcome(s, tx) is Ok {
        assert forall|k: u16| #[trigger] n.clients.contains_key(k) implies n.order.contains(k) by {
            assert(s1.clients.contains_key(k));
        }
    }
}

/// The state reached from `s` by a run of records, each of which stays
/// within the balance limit, is valid.
pub proof fn lemma_run_valid(s: StateView, txs: Seq<Transaction>)
    requires
        valid(s),
        forall|i: int| 0 <= i < txs.len() ==> (#[trigger] txs[i]).is_valid(),
        forall|i: int| 0 <= i < txs.len() ==> fits(run(s, txs.take(i)), #[trigger] txs[i]),
    ensures
        valid(run(s, txs)),
    decreases txs.len(),
{
    if txs.len() > 0 {
        let init = txs.drop_last();
        assert forall|i: int| 0 <= i < init.len() implies fits(
            run(s, init.take(i)),
            #[trigger] init[i],
        ) by {
            assert(init.take(i) == txs.take(i));
            assert(init[i] == txs[i]);
        }
        lemma_run_valid(s, init);
        assert(txs.take(txs.len() - 1) == init);
        lemma_next_valid(run(s, init), txs.last());
    }
}

/// In every valid state, each account's snapshot line has a total equal to
/// its available plus held funds, and all three lie in range.
pub proof fn lemma_export_total(s: StateView)
    requires
        valid(s),
    ensures
        forall|k: u16| #[trigger]
            s.clients.contains_key(k) ==> exported(s.clients[k]).total.units == s.clients[k].available.units
                + s.clients[k].held.units && in_limit(s.clients[k].available.units as int)
                && in_limit(s.clients[k].held.units as int),
{
}

} // verus!
