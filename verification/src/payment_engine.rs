//! The transaction-execution engine: routes each transaction to the right
//! balance mutation on a working copy of the target client and commits the
//! copy only when every step succeeded, so a failing transaction leaves the
//! stored state exactly as it was.

use crate::balance::{credit_spec, debit_spec, freeze_spec, unfreeze_spec, Amount, ArithmeticError};
use crate::client::{
    client_view_new, dispute_spec, resolve_spec, BookedDeposit, Client, ClientId, ClientView,
    ExecutionError, State, TransactionId,
};
use std::collections::HashMap;
use vstd::prelude::*;

verus! {

pub type ClientMap = HashMap<ClientId, Client>;

impl From<ArithmeticError> for ExecutionError {
    fn from(value: ArithmeticError) -> (r: Self) {
        ExecutionError::Arithmetic(value)
    }
}

impl vstd::std_specs::convert::FromSpecImpl<ArithmeticError> for ExecutionError {
    open spec fn obeys_from_spec() -> bool {
        true
    }

    open spec fn from_spec(v: ArithmeticError) -> Self {
        ExecutionError::Arithmetic(v)
    }
}

pub struct Transaction {
    pub id: TransactionId,
    pub client: ClientId,
    pub transaction_type: TransactionType,
}

impl Transaction {
    pub fn new(id: TransactionId, client: ClientId, transaction_type: TransactionType) -> (r: Self)
        ensures
            r == (Transaction { id, client, transaction_type }),
    {
        Self { client, transaction_type, id }
    }
}

#[derive(Clone, Copy, Debug)]
pub enum TransactionType {
    Deposit(Amount),
    Withdrawal(Amount),
    Dispute,
    Resolve,
    Chargeback,
}

/// What one transaction does to its (unlocked) target client: the successor
/// client state, or the exact error that leaves the client untouched. The
/// stepped deposit record is written back under its own transaction id, as
/// `add_or_update_booking` stores it.
pub open spec fn client_step(c: ClientView, t: Transaction) -> Result<ClientView, ExecutionError> {
    match t.transaction_type {
        TransactionType::Deposit(amount) => match credit_spec(c.balance, amount) {
            Ok(b) => Ok(
                ClientView {
                    balance: b,
                    bookings: c.bookings.insert(
                        t.id,
                        BookedDeposit { tx: t.id, amount, state: State::Booked },
                    ),
                    ..c
                },
            ),
            Err(e) => Err(ExecutionError::Arithmetic(e)),
        },
        TransactionType::Withdrawal(amount) => match debit_spec(c.balance, amount) {
            Ok(b) => Ok(ClientView { balance: b, ..c }),
            Err(e) => Err(ExecutionError::Arithmetic(e)),
        },
        TransactionType::Dispute => {
            if !c.bookings.contains_key(t.id) {
                Err(ExecutionError::InvalidBooking)
            } else {
                match dispute_spec(c.bookings[t.id]) {
                    Ok(d) => match freeze_spec(c.balance, d.amount) {
                        Ok(b) => Ok(
                            ClientView { balance: b, bookings: c.bookings.insert(d.tx, d), ..c },
                        ),
                        Err(e) => Err(ExecutionError::Arithmetic(e)),
                    },
                    Err(e) => Err(e),
                }
            }
        },
        TransactionType::Resolve => {
            if !c.bookings.contains_key(t.id) {
                Err(ExecutionError::InvalidBooking)
            } else {
                match resolve_spec(c.bookings[t.id]) {
                    Ok(d) => match unfreeze_spec(c.balance, d.amount) {
                        Ok(b) => Ok(
                            ClientView { balance: b, bookings: c.bookings.insert(d.tx, d), ..c },
                        ),
                        Err(e) => Err(ExecutionError::Arithmetic(e)),
                    },
                    Err(e) => Err(e),
                }
            }
        },
        TransactionType::Chargeback => {
            if !c.bookings.contains_key(t.id) {
                Err(ExecutionError::InvalidBooking)
            } else {
                match crate::client::chargeback_spec(c.bookings[t.id]) {
                    Ok(d) => match crate::balance::chargeback_spec(c.balance, d.amount) {
                        Ok(b) => Ok(
                            ClientView {
                                balance: b,
                                bookings: c.bookings.insert(d.tx, d),
                                locked: true,
                                ..c
                            },
                        ),
                        Err(e) => Err(ExecutionError::Arithmetic(e)),
                    },
                    Err(e) => Err(e),
                }
            }
        },
    }
}

/// What one transaction does to the whole client table: either the successor
/// table, or the exact error that leaves the table untouched. A deposit for an
/// unknown client id first creates that client with a zero balance; any other
/// transaction for an unknown id is rejected outright, and a locked client
/// rejects everything.
pub open spec fn engine_step(m: Map<ClientId, ClientView>, t: Transaction) -> Result<
    Map<ClientId, ClientView>,
    ExecutionError,
> {
    if !m.contains_key(t.client) && !(t.transaction_type is Deposit) {
        Err(ExecutionError::ClientDoesNotExist)
    } else {
        let c = if m.contains_key(t.client) {
            m[t.client]
        } else {
            client_view_new(t.client)
        };
        if c.locked {
            Err(ExecutionError::ClientLocked)
        } else {
            match client_step(c, t) {
                Ok(c2) => Ok(m.insert(t.client, c2)),
                Err(e) => Err(e),
            }
        }
    }
}

/// Law: a step never drives a client's combined total `available + frozen`
/// out of the representable range; credits check it, and every other
/// operation moves value between the two sub-balances or removes it.
pub proof fn lemma_engine_step_preserves_totals(m: Map<ClientId, ClientView>, t: Transaction)
    requires
        forall|k: ClientId| #[trigger] m.contains_key(k) ==> m[k].balance.available
            + m[k].balance.frozen <= u64::MAX,
    ensures
        engine_step(m, t) matches Ok(m2) ==> forall|k: ClientId| #[trigger]
            m2.contains_key(k) ==> m2[k].balance.available + m2[k].balance.frozen <= u64::MAX,
{
    if engine_step(m, t) is Ok {
        let m2 = engine_step(m, t)->Ok_0;
        let c = if m.contains_key(t.client) {
            m[t.client]
        } else {
            client_view_new(t.client)
        };
        let c2 = client_step(c, t)->Ok_0;
        assert(c.balance.available + c.balance.frozen <= u64::MAX);
        assert(c2.balance.available + c2.balance.frozen <= u64::MAX);
        assert forall|k: ClientId| #[trigger] m2.contains_key(k) implies m2[k].balance.available
            + m2[k].balance.frozen <= u64::MAX by {
            if k != t.client {
                assert(m.contains_key(k));
            }
        }
    }
}

pub struct PaymentEngine {
    clients: ClientMap,
    /// Client ids in order of first appearance; used to hand the clients out
    /// deterministically at the end of the run.
    order: Vec<ClientId>,
}

impl View for PaymentEngine {
    type V = Map<ClientId, ClientView>;

    closed spec fn view(&self) -> Map<ClientId, ClientView> {
        self.clients@.map_values(|c: Client| c@)
    }
}

impl Default for PaymentEngine {
    /// An engine starts with no clients.
    fn default() -> (r: Self)
        ensures
            r@ == Map::<ClientId, ClientView>::empty(),
            r.wf(),
    {
        let r = PaymentEngine { clients: HashMap::new(), order: Vec::new() };
        proof {
            assert(r@ =~= Map::<ClientId, ClientView>::empty());
        }
        r
    }
}

impl PaymentEngine {
    /// The client table and the first-appearance order agree: the order lists
    /// exactly the stored client ids, once each, and every client is stored
    /// under its own id.
    pub closed spec fn wf(&self) -> bool {
        &&& self.order@.no_duplicates()
        &&& (forall|k: ClientId| #[trigger] self.clients@.contains_key(k) ==> self.order@.contains(
            k,
        ))
        &&& (forall|i: int|
            0 <= i < self.order@.len() ==> self.clients@.contains_key(#[trigger] self.order@[i]))
        &&& (forall|k: ClientId| #[trigger] self.clients@.contains_key(k)
            ==> self.clients@[k]@.id == k)
    }

    /// Storing a client under its own id, whether it replaces a stored one or
    /// comes with a fresh entry in the first-appearance order, keeps the
    /// table and the order in agreement.
    proof fn lemma_wf_after_commit(pre: Self, post: Self, id: ClientId, cv: ClientView)
        requires
            pre.wf(),
            cv.id == id,
            post.clients@.contains_key(id),
            post.clients@[id]@ == cv,
            forall|k: ClientId| #[trigger]
                post.clients@.contains_key(k) <==> pre.clients@.contains_key(k) || k == id,
            forall|k: ClientId|
                k != id && #[trigger] post.clients@.contains_key(k) ==> post.clients@[k]
                    == pre.clients@[k],
            pre.clients@.contains_key(id) ==> post.order@ == pre.order@,
            !pre.clients@.contains_key(id) ==> post.order@ == pre.order@.push(id),
        ensures
            post.wf(),
    {
        if !pre.clients@.contains_key(id) {
            assert(!pre.order@.contains(id)) by {
                if pre.order@.contains(id) {
                    let i = choose|i: int| 0 <= i < pre.order@.len() && pre.order@[i] == id;
                    assert(pre.clients@.contains_key(pre.order@[i]));
                }
            }
            assert(post.order@.no_duplicates()) by {
                assert forall|i: int, j: int|
                    0 <= i < j < post.order@.len() implies post.order@[i] != post.order@[j] by {
                    if j == post.order@.len() - 1 {
                        assert(post.order@[j] == id);
                        if post.order@[i] == id {
                            assert(pre.order@[i] == id);
                            assert(pre.order@.contains(id));
                        }
                    }
                }
            }
        }
        assert forall|k: ClientId| #[trigger] post.clients@.contains_key(k) implies post
            .order@.contains(k) by {
            if k == id {
                if pre.clients@.contains_key(id) {
                    assert(pre.order@.contains(id));
                } else {
                    assert(post.order@[post.order@.len() - 1] == id);
                }
            } else {
                assert(pre.clients@.contains_key(k));
                assert(pre.order@.contains(k));
                let i = choose|i: int| 0 <= i < pre.order@.len() && pre.order@[i] == k;
                assert(post.order@[i] == k);
            }
        }
        assert forall|i: int| 0 <= i < post.order@.len() implies post.clients@.contains_key(
            #[trigger] post.order@[i],
        ) by {
            if i < pre.order@.len() {
                assert(pre.clients@.contains_key(pre.order@[i]));
            } else {
                assert(post.order@[i] == id);
            }
        }
        assert forall|k: ClientId| #[trigger] post.clients@.contains_key(k) implies post
            .clients@[k]@.id == k by {
            if k != id {
                assert(pre.clients@.contains_key(k));
            }
        }
    }

    /// Executes one transaction: on success the mutated working copy of the
    /// target client replaces the stored one; on failure the stored client
    /// table is exactly as it was before the call.
    pub fn execute(&mut self, transaction: Transaction) -> (r: Result<(), ExecutionError>)
        requires
            old(self).wf(),
        ensures
            final(self).wf(),
            match engine_step(old(self)@, transaction) {
                Ok(m) => r is Ok && final(self)@ == m,
                Err(e) => r == Err::<(), ExecutionError>(e) && final(self)@ == old(self)@,
            },
    {
        let client_id = transaction.client;
        // take the stored client out as the working copy, or synthesize a new
        // one if this is a deposit for an unseen client id
        let (mut client, existed): (Client, bool) = match self.clients.remove(&client_id) {
            Some(c) => (c, true),
            None => match transaction.transaction_type {
                TransactionType::Deposit(_) => (Client::new(client_id), false),
                _ => {
                    proof {
                        assert(self.clients@ =~= old(self).clients@);
                    }
                    return Err(ExecutionError::ClientDoesNotExist);
                },
            },
        };

        // do not proceed if the client has been previously locked
        if client.is_locked() {
            self.clients.insert(client_id, client);
            proof {
                assert(self.clients@ =~= old(self).clients@);
            }
            return Err(ExecutionError::ClientLocked);
        }

        let result = match transaction.transaction_type {
            TransactionType::Deposit(amount) => self.deposit(&mut client, amount, transaction.id),
            TransactionType::Withdrawal(amount) => self.withdraw(&mut client, amount),
            TransactionType::Dispute | TransactionType::Resolve | TransactionType::Chargeback => {
                Self::apply_dispute_family(&mut client, &transaction)
            },
        };

        let ghost committed = client@;
        match result {
            Ok(()) => {
                self.clients.insert(client_id, client);
                if !existed {
                    self.order.push(client_id);
                }
                proof {
                    assert(self@ =~= old(self)@.insert(client_id, committed));
                    Self::lemma_wf_after_commit(*old(self), *self, client_id, committed);
                }
                Ok(())
            },
            Err(e) => {
                if existed {
                    self.clients.insert(client_id, client);
                }
                proof {
                    assert(self@ =~= old(self)@);
                    Self::lemma_wf_after_commit(*old(self), *self, client_id, committed);
                }
                Err(e)
            },
        }
    }

    /// consumes the engine, handing out all clients once, in order of first
    /// appearance
    pub fn into_clients(self) -> (r: Vec<Client>)
        requires
            self.wf(),
        ensures
            r@.len() == self@.len(),
            forall|i: int|
                0 <= i < r@.len() ==> self@.contains_key(#[trigger] r@[i]@.id) && self@[r@[i]@.id]
                    == r@[i]@,
            forall|i: int, j: int| 0 <= i < j < r@.len() ==> r@[i]@.id != r@[j]@.id,
            forall|k: ClientId| #[trigger] self@.contains_key(k) ==> exists|i: int|
                0 <= i < r@.len() && r@[i]@.id == k,
    {
        let ghost m0 = self@;
        let ghost c0 = self.clients@;
        let PaymentEngine { mut clients, order } = self;
        let mut r: Vec<Client> = Vec::new();
        let mut idx: usize = 0;
        proof {
            order@.unique_seq_to_set();
            assert(order@.to_set() =~= c0.dom());
            assert(m0.dom() =~= c0.dom());
        }
        while idx < order.len()
            invariant
                idx <= order@.len(),
                r@.len() == idx,
                order@.no_duplicates(),
                forall|i: int| 0 <= i < order@.len() ==> c0.contains_key(#[trigger] order@[i]),
                forall|k: ClientId| #[trigger] c0.contains_key(k) ==> c0[k]@.id == k,
                forall|k: ClientId| #[trigger] c0.contains_key(k) ==> m0.contains_key(k) && m0[k]
                    == c0[k]@,
                forall|j: int| idx <= j < order@.len() ==> clients@.contains_key(
                    #[trigger] order@[j],
                ),
                forall|k: ClientId| #[trigger] clients@.contains_key(k) ==> c0.contains_key(k)
                    && clients@[k] == c0[k],
                forall|i: int| 0 <= i < idx ==> r@[i] == c0[#[trigger] order@[i]],
            decreases order@.len() - idx,
        {
            let id = order[idx];
            let c = match clients.remove(&id) {
                Some(c) => c,
                None => vstd::pervasive::unreached(),
            };
            r.push(c);
            idx = idx + 1;
            proof {
                assert forall|j: int| idx <= j < order@.len() implies clients@.contains_key(
                    #[trigger] order@[j],
                ) by {
                    assert(order@[j] != order@[idx - 1]);
                }
            }
        }
        proof {
            assert(r@.len() == m0.len()) by {
                order@.unique_seq_to_set();
                assert(order@.to_set() =~= m0.dom());
            }
            assert forall|i: int| 0 <= i < r@.len() implies m0.contains_key(
                #[trigger] r@[i]@.id,
            ) && m0[r@[i]@.id] == r@[i]@ by {
                assert(r@[i] == c0[order@[i]]);
                assert(c0[order@[i]]@.id == order@[i]);
            }
            assert forall|i: int, j: int| 0 <= i < j < r@.len() implies r@[i]@.id != r@[j]@.id by {
                assert(r@[i]@.id == order@[i]);
                assert(r@[j]@.id == order@[j]);
            }
            assert forall|k: ClientId| #[trigger] m0.contains_key(k) implies exists|i: int|
                0 <= i < r@.len() && r@[i]@.id == k by {
                assert(c0.contains_key(k));
                assert(order@.contains(k));
                let i = choose|i: int| 0 <= i < order@.len() && order@[i] == k;
                assert(r@[i]@.id == k);
            }
        }
        r
    }

    /// Read access to one stored client.
    pub fn get_client(&self, id: ClientId) -> (r: Option<&Client>)
        ensures
            match r {
                Some(c) => self@.contains_key(id) && c@ == self@[id],
                None => !self@.contains_key(id),
            },
    {
        self.clients.get(&id)
    }

    /// Stores a fully built client under its own id, replacing any client
    /// previously stored there.
    pub fn insert_client(&mut self, client: Client)
        requires
            old(self).wf(),
        ensures
            final(self).wf(),
            final(self)@ == old(self)@.insert(client@.id, client@),
    {
        let id = client.id();
        let ghost cv = client@;
        let existed = self.clients.contains_key(&id);
        self.clients.insert(id, client);
        if !existed {
            self.order.push(id);
        }
        proof {
            assert(self@ =~= old(self)@.insert(id, cv));
            Self::lemma_wf_after_commit(*old(self), *self, id, cv);
        }
    }

    fn deposit(&mut self, client: &mut Client, amount: Amount, tx: TransactionId) -> (r: Result<
        (),
        ExecutionError,
    >)
        ensures
            *final(self) == *old(self),
            match credit_spec(old(client)@.balance, amount) {
                Ok(b) => r is Ok && final(client)@ == (ClientView {
                    balance: b,
                    bookings: old(client)@.bookings.insert(
                        tx,
                        BookedDeposit { tx, amount, state: State::Booked },
                    ),
                    ..old(client)@
                }),
                Err(e) => r == Err::<(), ExecutionError>(ExecutionError::Arithmetic(e)) && final(client)@
                    == old(client)@,
            },
    {
        // update balance
        match client.get_balance_mut().credit(amount) {
            Ok(()) => {},
            Err(e) => {
                return Err(ExecutionError::Arithmetic(e));
            },
        }

        // add booking
        client.add_or_update_booking(BookedDeposit::new(tx, amount));

        Ok(())
    }

    fn withdraw(&mut self, client: &mut Client, amount: Amount) -> (r: Result<(), ExecutionError>)
        ensures
            *final(self) == *old(self),
            match debit_spec(old(client)@.balance, amount) {
                Ok(b) => r is Ok && final(client)@ == (ClientView { balance: b, ..old(client)@ }),
                Err(e) => r == Err::<(), ExecutionError>(ExecutionError::Arithmetic(e)) && final(client)@
                    == old(client)@,
            },
    {
        // update balance
        match client.get_balance_mut().debit(amount) {
            Ok(()) => {},
            Err(e) => {
                return Err(ExecutionError::Arithmetic(e));
            },
        }

        Ok(())
    }

    /// The shared path of dispute, resolve and chargeback: look the booking
    /// up, step its state machine on a copy, apply the matching balance side
    /// effect, and only then write the copy back (and, for a chargeback, lock
    /// the client).
    fn apply_dispute_family(client: &mut Client, transaction: &Transaction) -> (r: Result<
        (),
        ExecutionError,
    >)
        requires
            transaction.transaction_type is Dispute || transaction.transaction_type is Resolve
                || transaction.transaction_type is Chargeback,
        ensures
            match client_step(old(client)@, *transaction) {
                Ok(cv) => r is Ok && final(client)@ == cv,
                Err(e) => r == Err::<(), ExecutionError>(e) && final(client)@ == old(client)@,
            },
    {
        // try and get the previously booked deposit
        let mut booking = match client.get_booking(&transaction.id) {
            Ok(b) => *b,
            Err(e) => {
                return Err(e);
            },
        };

        match transaction.transaction_type {
            TransactionType::Dispute => {
                // check if disputable
                match booking.dispute() {
                    Ok(()) => {},
                    Err(e) => {
                        return Err(e);
                    },
                }
                // freeze the disputed amount
                match client.get_balance_mut().freeze(booking.amount()) {
                    Ok(()) => {},
                    Err(e) => {
                        return Err(ExecutionError::Arithmetic(e));
                    },
                }
            },
            TransactionType::Resolve => {
                // check if resolvable
                match booking.resolve() {
                    Ok(()) => {},
                    Err(e) => {
                        return Err(e);
                    },
                }
                // release the disputed amount
                match client.get_balance_mut().unfreeze(booking.amount()) {
                    Ok(()) => {},
                    Err(e) => {
                        return Err(ExecutionError::Arithmetic(e));
                    },
                }
            },
            TransactionType::Chargeback => {
                // check if a chargeback is possible
                match booking.chargeback() {
                    Ok(()) => {},
                    Err(e) => {
                        return Err(e);
                    },
                }
                // remove the disputed amount for good
                match client.get_balance_mut().chargeback(booking.amount()) {
                    Ok(()) => {},
                    Err(e) => {
                        return Err(ExecutionError::Arithmetic(e));
                    },
                }
                // clients are locked when they charge back
                client.lock();
            },
            _ => {},
        }

        // write the stepped copy back
        client.add_or_update_booking(booking);

        Ok(())
    }
}

} // verus!
