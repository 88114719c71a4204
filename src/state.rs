use vstd::prelude::*;

use std::collections::HashMap;
use std::collections::HashSet;

use crate::errors::{ClientError, Error, TransactionError};
use crate::transaction::{is_regular, Amount, Transaction, TransactionType};

verus! {

broadcast use vstd::std_specs::hash::group_hash_axioms;

/// Bound on the size of every balance, in units, so that `available + held`
/// always fits.
pub const BALANCE_LIMIT: i128 = 85070591730234615865843651857942052863;

/// Whether a number of units lies within [`BALANCE_LIMIT`].
pub open spec fn in_limit(x: int) -> bool {
    -(BALANCE_LIMIT as int) <= x <= BALANCE_LIMIT as int
}

/// The state of one client's account.
#[derive(Debug, Clone, Copy, PartialEq, Eq, Structural)]
pub struct Client {
    /// The client's unique ID.
    pub id: u16,
    /// Funds usable for withdrawal.
    pub available: Amount,
    /// Funds frozen under dispute.
    pub held: Amount,
    /// Set by a chargeback; never cleared.
    pub locked: bool,
}

/// A fresh account: zero balances, unlocked.
pub open spec fn fresh_client(id: u16) -> Client {
    Client { id, available: Amount { units: 0 }, held: Amount { units: 0 }, locked: false }
}

impl Client {
    /// Creates a new client account given an ID.
    pub fn from_id(id: u16) -> (r: Client)
        ensures
            r == fresh_client(id),
    {
        Client { id, available: Amount::zero(), held: Amount::zero(), locked: false }
    }
}

/// One line of the final snapshot: an account with its derived total.
#[derive(Debug, Clone, Copy, PartialEq, Eq, Structural)]
pub struct CsvClient {
    pub client: u16,
    pub available: Amount,
    pub held: Amount,
    pub total: Amount,
    pub locked: bool,
}

/// The snapshot line of an account.
pub open spec fn exported(c: Client) -> CsvClient {
    CsvClient {
        client: c.id,
        available: c.available,
        held: c.held,
        total: Amount { units: (c.available.units + c.held.units) as i128 },
        locked: c.locked,
    }
}

impl CsvClient {
    /// Builds the snapshot line of an account; the total is available plus held.
    pub fn from(in_state: &Client) -> (r: CsvClient)
        requires
            in_limit(in_state.available.units as int),
            in_limit(in_state.held.units as int),
        ensures
            r == exported(*in_state),
            r.total.units == r.available.units + r.held.units,
    {
        CsvClient {
            client: in_state.id,
            available: in_state.available,
            held: in_state.held,
            total: Amount { units: in_state.available.units + in_state.held.units },
            locked: in_state.locked,
        }
    }
}

/// The abstract state of the engine.
pub struct StateView {
    /// The ledger: accepted deposits and withdrawals by ID.
    pub transactions: Map<u32, Transaction>,
    /// IDs of the transactions under active dispute.
    pub disputes: Set<u32>,
    /// The accounts by client ID.
    pub clients: Map<u16, Client>,
    /// Client IDs in the order in which their accounts were created.
    pub order: Seq<u16>,
}

/// The invariant of the engine's state.
pub open spec fn valid(s: StateView) -> bool {
    &&& s.order.no_duplicates()
    &&& forall|i: int| 0 <= i < s.order.len() ==> s.clients.contains_key(#[trigger] s.order[i])
    &&& forall|k: u16| #[trigger] s.clients.contains_key(k) ==> s.order.contains(k)
    &&& forall|k: u16| #[trigger] s.clients.contains_key(k) ==> s.clients[k].id == k
    &&& forall|k: u16| #[trigger]
        s.clients.contains_key(k) ==> in_limit(s.clients[k].available.units as int) && in_limit(
            s.clients[k].held.units as int,
        )
    &&& forall|id: u32| #[trigger]
        s.transactions.contains_key(id) ==> {
            let t = s.transactions[id];
            &&& t.id == id
            &&& is_regular(t.kind)
            &&& t.is_valid()
            &&& s.clients.contains_key(t.client)
        }
}

/// The state with an account for `c`, created fresh at the end if missing.
pub open spec fn with_client(s: StateView, c: u16) -> StateView {
    if s.clients.contains_key(c) {
        s
    } else {
        StateView {
            clients: s.clients.insert(c, fresh_client(c)),
            order: s.order.push(c),
            ..s
        }
    }
}

/// The available funds of `c`; zero for an account not yet created.
pub open spec fn available_of(s: StateView, c: u16) -> int {
    if s.clients.contains_key(c) {
        s.clients[c].available.units as int
    } else {
        0
    }
}

/// Whether the account of `c` exists and is locked.
pub open spec fn is_locked(s: StateView, c: u16) -> bool {
    s.clients.contains_key(c) && s.clients[c].locked
}

/// What applying `tx` to `s` returns: the first precondition it breaks, or `Ok`.
pub open spec fn outcome(s: StateView, tx: Transaction) -> Result<(), Error> {
    if is_regular(tx.kind) {
        if s.transactions.contains_key(tx.id) {
            Err(Error::Transaction(TransactionError::AlreadyExists(tx.id)))
        } else if is_locked(s, tx.client) {
            Err(Error::Client(ClientError::Locked(tx.id)))
        } else if tx.kind == TransactionType::Withdrawal && tx.amount_units() >= available_of(
            s,
            tx.client,
        ) {
            Err(Error::Client(ClientError::InsufficientFunds(tx.id)))
        } else {
            Ok(())
        }
    } else {
        if !s.transactions.contains_key(tx.id) {
            Err(Error::Transaction(TransactionError::NonexistentTransaction(tx.id)))
        } else if s.transactions[tx.id].client != tx.client {
            Err(Error::Transaction(TransactionError::ClientMismatch(tx.id)))
        } else if is_locked(s, tx.client) {
            Err(Error::Client(ClientError::Locked(tx.id)))
        } else if tx.kind == TransactionType::Dispute && s.disputes.contains(tx.id) {
            Err(Error::Transaction(TransactionError::DisputeAlreadyExists(tx.id)))
        } else if tx.kind != TransactionType::Dispute && !s.disputes.contains(tx.id) {
            Err(Error::Transaction(TransactionError::NonexistentDispute(tx.id)))
        } else {
            Ok(())
        }
    }
}

/// The account `c` with its balances moved by the given numbers of units.
pub open spec fn moved(c: Client, d_available: int, d_held: int) -> Client {
    Client {
        available: Amount { units: (c.available.units + d_available) as i128 },
        held: Amount { units: (c.held.units + d_held) as i128 },
        ..c
    }
}

/// How an accepted `tx` moves its client's available and held funds, in units.
pub open spec fn deltas(s: StateView, tx: Transaction) -> (int, int) {
    if is_regular(tx.kind) {
        if tx.kind == TransactionType::Deposit {
            (tx.amount_units(), 0)
        } else {
            (-tx.amount_units(), 0)
        }
    } else {
        let a = s.transactions[tx.id].amount_units();
        if tx.kind == TransactionType::Dispute {
            (-a, a)
        } else if tx.kind == TransactionType::Resolve {
            (a, -a)
        } else {
            (0, -a)
        }
    }
}

/// Whether applying `tx` keeps its client's balances within [`BALANCE_LIMIT`].
pub open spec fn fits(s: StateView, tx: Transaction) -> bool {
    outcome(s, tx) is Ok ==> {
        let c = with_client(s, tx.client).clients[tx.client];
        let d = deltas(s, tx);
        &&& in_limit(c.available.units + d.0)
        &&& in_limit(c.held.units + d.1)
    }
}

/// The state after applying `tx` to `s`.
///
/// A refused record changes nothing, except that a deposit or withdrawal whose
/// ID is new first creates its client's account. An accepted one moves the
/// balances by [`deltas`]: a resolve returns the held amount to the available
/// funds, undoing the dispute, and a chargeback also locks the account.
pub open spec fn next(s: StateView, tx: Transaction) -> StateView {
    if outcome(s, tx) is Err {
        if is_regular(tx.kind) && !s.transactions.contains_key(tx.id) {
            with_client(s, tx.client)
        } else {
            s
        }
    } else {
        let c = tx.client;
        let s1 = with_client(s, c);
        let d = deltas(s, tx);
        let acct = moved(s1.clients[c], d.0, d.1);
        if is_regular(tx.kind) {
            StateView {
                clients: s1.clients.insert(c, acct),
                transactions: s1.transactions.insert(tx.id, tx),
                ..s1
            }
        } else if tx.kind == TransactionType::Dispute {
            StateView {
                clients: s.clients.insert(c, acct),
                disputes: s.disputes.insert(tx.id),
                ..s
            }
        } else if tx.kind == TransactionType::Resolve {
            StateView {
                clients: s.clients.insert(c, acct),
                disputes: s.disputes.remove(tx.id),
                ..s
            }
        } else {
            StateView {
                clients: s.clients.insert(c, Client { locked: true, ..acct }),
                disputes: s.disputes.remove(tx.id),
                ..s
            }
        }
    }
}

/// The engine: the ledger, the dispute markers and the accounts of one run.
pub struct CurrentState {
    /// Accepted deposits and withdrawals by ID.
    transactions: HashMap<u32, Transaction>,
    /// IDs of the transactions under active dispute.
    disputes: HashSet<u32>,
    /// The accounts by client ID.
    client_states: HashMap<u16, Client>,
    /// Client IDs in order of creation, which fixes the snapshot's order.
    order: Vec<u16>,
}

impl View for CurrentState {
    type V = StateView;

    closed spec fn view(&self) -> StateView {
        StateView {
            transactions: self.transactions@,
            disputes: self.disputes@,
            clients: self.client_states@,
            order: self.order@,
        }
    }
}

impl Default for CurrentState {
    /// The same as [`CurrentState::new`].
    fn default() -> (r: CurrentState)
        ensures
            r.well_formed(),
            r@.transactions == Map::<u32, Transaction>::empty(),
            r@.disputes == Set::<u32>::empty(),
            r@.clients == Map::<u16, Client>::empty(),
            r@.order == Seq::<u16>::empty(),
    {
        CurrentState::new()
    }
}

impl CurrentState {
    /// The invariant of the engine.
    pub open spec fn well_formed(&self) -> bool {
        valid(self@)
    }

    /// An engine with no account, no ledger entry and no dispute.
    pub fn new() -> (r: CurrentState)
        ensures
            r.well_formed(),
            r@.transactions == Map::<u32, Transaction>::empty(),
            r@.disputes == Set::<u32>::empty(),
            r@.clients == Map::<u16, Client>::empty(),
            r@.order == Seq::<u16>::empty(),
    {
        CurrentState {
            transactions: HashMap::new(),
            disputes: HashSet::new(),
            client_states: HashMap::new(),
            order: Vec::new(),
        }
    }

    /// Applies one validated record. On success the balances, the ledger and
    /// the dispute markers change as [`next`] says; on refusal the error names
    /// the first broken precondition and nothing changes but, for a
    /// deposit or withdrawal with a new ID, the creation of its account.
    pub fn add(&mut self, tx: &Transaction) -> (r: Result<(), Error>)
        requires
            old(self).well_formed(),
            tx.is_valid(),
            fits(old(self)@, *tx),
        ensures
            final(self).well_formed(),
            final(self)@ == next(old(self)@, *tx),
            r == outcome(old(self)@, *tx),
    {
        let ghost o = self@;
        match tx.kind {
            TransactionType::Withdrawal | TransactionType::Deposit => {
                let mut client = match self.check_regular(tx) {
                    Ok(c) => c,
                    Err(e) => {
                        return Err(e);
                    },
                };
                let ghost s1 = self@;
                let amount = match tx.amount {
                    Some(a) => a.units,
                    None => 0,
                };
                match tx.kind {
                    TransactionType::Withdrawal => {
                        if amount >= client.available.units {
                            return Err(Error::Client(ClientError::InsufficientFunds(tx.id)));
                        }
                        client.available = Amount { units: client.available.units - amount };
                    },
                    _ => {
                        client.available = Amount { units: client.available.units + amount };
                    },
                }
                self.client_states.insert(tx.client, client);
                self.transactions.insert(tx.id, *tx);
                proof {
                    assert(self@.clients =~= next(o, *tx).clients);
                    assert(self@.transactions =~= next(o, *tx).transactions);
                    assert(self@ == next(o, *tx));
                    assert forall|k: u16| #[trigger] self@.clients.contains_key(k) implies self@.order.contains(k) by {
                        assert(s1.clients.contains_key(k));
                    }
                }
                Ok(())
            },
            _ => {
                let (mut client, rtx) = match self.check_irregular(tx) {
                    Ok(p) => p,
                    Err(e) => {
                        return Err(e);
                    },
                };
                let amount = match rtx.amount {
                    Some(a) => a.units,
                    None => 0,
                };
                match tx.kind {
                    TransactionType::Dispute => {
                        client.held = Amount { units: client.held.units + amount };
                        client.available = Amount { units: client.available.units - amount };
                        self.disputes.insert(tx.id);
                    },
                    TransactionType::Resolve => {
                        client.held = Amount { units: client.held.units - amount };
                        client.available = Amount { units: client.available.units + amount };
                        self.disputes.remove(&tx.id);
                    },
                    _ => {
                        client.locked = true;
                        client.held = Amount { units: client.held.units - amount };
                        self.disputes.remove(&tx.id);
                    },
                }
                self.client_states.insert(tx.client, client);
                proof {
                    assert(self@.clients =~= next(o, *tx).clients);
                    assert(self@.disputes =~= next(o, *tx).disputes);
                    assert(self@ == next(o, *tx));
                    assert forall|k: u16| #[trigger] self@.clients.contains_key(k) implies self@.order.contains(k) by {
                        assert(o.clients.contains_key(k));
                    }
                }
                Ok(())
            },
        }
    }

    /// Whether `add` may be called on `tx`: true only where every balance
    /// that `tx` may touch stays within [`BALANCE_LIMIT`]. It looks at the size
    /// of the amount alone, whatever the record's outcome.
    pub fn within_limits(&self, tx: &Transaction) -> (r: bool)
        requires
            self.well_formed(),
            tx.is_valid(),
        ensures
            r ==> fits(self@, *tx),
    {
        let amount: i128 = match tx.amount {
            Some(a) => a.units,
            None => match self.transactions.get(&tx.id) {
                Some(t) => match t.amount {
                    Some(a) => a.units,
                    None => 0,
                },
                None => 0,
            },
        };
        if amount < 0 || amount > BALANCE_LIMIT {
            return false;
        }
        let (available, held): (i128, i128) = match self.client_states.get(&tx.client) {
            Some(c) => {
                proof {
                    assert(self@.clients.contains_key(tx.client));
                }
                (c.available.units, c.held.units)
            },
            None => (0, 0),
        };
        let lo = -BALANCE_LIMIT;
        available + amount <= BALANCE_LIMIT && available - amount >= lo && held + amount
            <= BALANCE_LIMIT && held - amount >= lo
    }

    /// The account of `client`, if one was created.
    pub fn client(&self, client: u16) -> (r: Option<Client>)
        requires
            self.well_formed(),
        ensures
            r == (if self@.clients.contains_key(client) {
                Some(self@.clients[client])
            } else {
                None::<Client>
            }),
    {
        match self.client_states.get(&client) {
            Some(c) => Some(*c),
            None => None,
        }
    }

    /// The ledger entry of `id`, if a deposit or withdrawal with that ID was accepted.
    pub fn transaction(&self, id: u32) -> (r: Option<Transaction>)
        requires
            self.well_formed(),
        ensures
            r == (if self@.transactions.contains_key(id) {
                Some(self@.transactions[id])
            } else {
                None::<Transaction>
            }),
    {
        match self.transactions.get(&id) {
            Some(t) => Some(*t),
            None => None,
        }
    }

    /// Whether the transaction `id` is under active dispute.
    pub fn is_disputed(&self, id: u32) -> (r: bool)
        requires
            self.well_formed(),
        ensures
            r == self@.disputes.contains(id),
    {
        self.disputes.contains(&id)
    }

    /// The final snapshot: one line per account, in order of account creation.
    pub fn snapshot(&self) -> (r: Vec<CsvClient>)
        requires
            self.well_formed(),
        ensures
            r@.len() == self@.order.len(),
            forall|i: int|
                0 <= i < r@.len() ==> #[trigger] r@[i] == exported(self@.clients[self@.order[i]]),
            forall|i: int|
                0 <= i < r@.len() ==> #[trigger] r@[i].total.units == r@[i].available.units
                    + r@[i].held.units,
    {
        let mut out: Vec<CsvClient> = Vec::new();
        let n = self.order.len();
        let mut i: usize = 0;
        while i < n
            invariant
                self.well_formed(),
                n == self@.order.len(),
                i <= n,
                out@.len() == i,
                forall|j: int|
                    0 <= j < i ==> #[trigger] out@[j] == exported(self@.clients[self@.order[j]]),
                forall|j: int|
                    0 <= j < i ==> #[trigger] out@[j].total.units == out@[j].available.units
                        + out@[j].held.units,
            decreases n - i,
        {
            let id = self.order[i];
            proof {
                assert(self@.order[i as int] == id);
                assert(self@.clients.contains_key(id));
            }
            match self.client_states.get(&id) {
                Some(c) => {
                    out.push(CsvClient::from(c));
                },
                None => {},
            }
            i = i + 1;
        }
        out
    }

    /// Fetches the account of `tx`'s client, creating it if missing, after
    /// checking that the ID is new and the account unlocked.
    fn check_regular(&mut self, tx: &Transaction) -> (r: Result<Client, Error>)
        requires
            old(self).well_formed(),
            is_regular(tx.kind),
        ensures
            final(self).well_formed(),
            old(self)@.transactions.contains_key(tx.id) ==> final(self)@ == old(self)@ && r
                == Err::<Client, Error>(Error::Transaction(TransactionError::AlreadyExists(tx.id))),
            !old(self)@.transactions.contains_key(tx.id) ==> {
                &&& final(self)@ == with_client(old(self)@, tx.client)
                &&& is_locked(old(self)@, tx.client) ==> r == Err::<Client, Error>(
                    Error::Client(ClientError::Locked(tx.id)),
                )
                &&& !is_locked(old(self)@, tx.client) ==> r == Ok::<Client, Error>(
                    final(self)@.clients[tx.client],
                )
            },
    {
        if self.transactions.contains_key(&tx.id) {
            return Err(Error::Transaction(TransactionError::AlreadyExists(tx.id)));
        }
        let client = match self.client_states.get(&tx.client) {
            Some(c) => *c,
            None => {
                let c = Client::from_id(tx.client);
                self.client_states.insert(tx.client, c);
                self.order.push(tx.client);
                proof {
                    let s = self@;
                    let o = old(self)@;
                    assert(s.order.no_duplicates()) by {
                        assert(!o.order.contains(tx.client));
                    }
                    assert forall|k: u16| #[trigger] s.clients.contains_key(k) implies s.order.contains(k) by {
                        if k != tx.client {
                            assert(o.order.contains(k));
                            let j = choose|j: int| 0 <= j < o.order.len() && o.order[j] == k;
                            assert(s.order[j] == k);
                        } else {
                            assert(s.order[s.order.len() - 1] == k);
                        }
                    }
                    assert forall|i: int| 0 <= i < s.order.len() implies s.clients.contains_key(#[trigger] s.order[i]) by {
                        if i < o.order.len() {
                            assert(s.order[i] == o.order[i]);
                        }
                    }
                    assert(s == with_client(o, tx.client));
                }
                c
            },
        };
        if client.locked {
            return Err(Error::Client(ClientError::Locked(tx.id)));
        }
        Ok(client)
    }

    /// Fetches the referenced transaction and its client's account, after
    /// checking existence, ownership, lock state and the dispute marker.
    fn check_irregular(&self, tx: &Transaction) -> (r: Result<(Client, Transaction), Error>)
        requires
            self.well_formed(),
            !is_regular(tx.kind),
        ensures
            r is Err <==> outcome(self@, *tx) is Err,
            r matches Err(e) ==> outcome(self@, *tx) == Err::<(), Error>(e),
            r matches Ok(p) ==> p.0 == self@.clients[tx.client] && p.1 == self@.transactions[tx.id]
                && self@.clients.contains_key(tx.client),
    {
        let rtx = match self.transactions.get(&tx.id) {
            Some(t) => *t,
            None => {
                return Err(Error::Transaction(TransactionError::NonexistentTransaction(tx.id)));
            },
        };
        if tx.client != rtx.client {
            return Err(Error::Transaction(TransactionError::ClientMismatch(tx.id)));
        }
        let client = match self.client_states.get(&tx.client) {
            Some(c) => *c,
            None => {
                // Cannot happen: every ledger entry's client has an account.
                proof {
                    assert(self@.clients.contains_key(rtx.client));
                }
                return Err(Error::Transaction(TransactionError::NonexistentTransaction(tx.id)));
            },
        };
        if client.locked {
            return Err(Error::Client(ClientError::Locked(tx.id)));
        }
        match tx.kind {
            TransactionType::Dispute => {
                if self.disputes.contains(&tx.id) {
                    return Err(Error::Transaction(TransactionError::DisputeAlreadyExists(tx.id)));
                }
            },
            _ => {
                if !self.disputes.contains(&tx.id) {
                    return Err(Error::Transaction(TransactionError::NonexistentDispute(tx.id)));
                }
            },
        }
        Ok((client, rtx))
    }
}

} // verus!
