//! Per-client state: one `Balance`, the booked deposits keyed by transaction
//! id, and the lock flag, together with the dispute lifecycle of a booked
//! deposit.

use crate::balance::{Amount, ArithmeticError, Balance};
use std::collections::HashMap;
use vstd::prelude::*;

verus! {

pub type ClientId = u16;

pub type TransactionId = u32;

pub type BookingMap = HashMap<TransactionId, BookedDeposit>;

#[derive(Clone, Copy, Debug, PartialEq, Eq, Structural)]
pub enum State {
    Booked,
    Disputed,
    Resolved,
    Chargeback,
}

/// A booked deposit: the record of one deposit transaction and its current
/// dispute state. The amount never changes after creation.
#[derive(Clone, Copy, Debug, PartialEq, Eq, Structural)]
pub struct BookedDeposit {
    pub tx: TransactionId,
    pub amount: Amount,
    pub state: State,
}

#[derive(Clone, Copy, Debug, PartialEq, Eq, Structural)]
pub enum ExecutionError {
    InvalidState,
    InvalidBooking,
    ClientLocked,
    ClientDoesNotExist,
    Arithmetic(ArithmeticError),
}

/// What `dispute` does to a deposit record: only a `Booked` deposit can be
/// disputed.
pub open spec fn dispute_spec(d: BookedDeposit) -> Result<BookedDeposit, ExecutionError> {
    if d.state == State::Booked {
        Ok(BookedDeposit { state: State::Disputed, ..d })
    } else {
        Err(ExecutionError::InvalidState)
    }
}

/// What `resolve` does to a deposit record: only a `Disputed` deposit can be
/// resolved.
pub open spec fn resolve_spec(d: BookedDeposit) -> Result<BookedDeposit, ExecutionError> {
    if d.state == State::Disputed {
        Ok(BookedDeposit { state: State::Resolved, ..d })
    } else {
        Err(ExecutionError::InvalidState)
    }
}

/// What `chargeback` does to a deposit record: only a `Disputed` deposit can
/// be charged back.
pub open spec fn chargeback_spec(d: BookedDeposit) -> Result<BookedDeposit, ExecutionError> {
    if d.state == State::Disputed {
        Ok(BookedDeposit { state: State::Chargeback, ..d })
    } else {
        Err(ExecutionError::InvalidState)
    }
}

impl BookedDeposit {
    /// A freshly booked deposit starts in state `Booked`.
    pub fn new(tx: TransactionId, amount: Amount) -> (r: Self)
        ensures
            r == (BookedDeposit { tx, amount, state: State::Booked }),
    {
        Self { state: State::Booked, tx, amount }
    }

    pub fn dispute(&mut self) -> (r: Result<(), ExecutionError>)
        ensures
            match dispute_spec(*old(self)) {
                Ok(d) => r is Ok && *final(self) == d,
                Err(e) => r == Err::<(), ExecutionError>(e) && *final(self) == *old(self),
            },
    {
        self.try_change_state(State::Booked, State::Disputed)
    }

    pub fn resolve(&mut self) -> (r: Result<(), ExecutionError>)
        ensures
            match resolve_spec(*old(self)) {
                Ok(d) => r is Ok && *final(self) == d,
                Err(e) => r == Err::<(), ExecutionError>(e) && *final(self) == *old(self),
            },
    {
        self.try_change_state(State::Disputed, State::Resolved)
    }

    pub fn chargeback(&mut self) -> (r: Result<(), ExecutionError>)
        ensures
            match chargeback_spec(*old(self)) {
                Ok(d) => r is Ok && *final(self) == d,
                Err(e) => r == Err::<(), ExecutionError>(e) && *final(self) == *old(self),
            },
    {
        self.try_change_state(State::Disputed, State::Chargeback)
    }

    pub fn amount(&self) -> (r: Amount)
        ensures
            r == self.amount,
    {
        self.amount
    }

    pub fn state(&self) -> (r: &State)
        ensures
            r == self.state,
    {
        &self.state
    }

    /// Moves to `to` exactly when the current state is `from`; any other
    /// combination fails with `InvalidState` and changes nothing.
    fn try_change_state(&mut self, from: State, to: State) -> (r: Result<(), ExecutionError>)
        ensures
            old(self).state == from ==> r is Ok && *final(self) == (BookedDeposit {
                state: to,
                ..*old(self)
            }),
            old(self).state != from ==> r == Err::<(), ExecutionError>(
                ExecutionError::InvalidState,
            ) && *final(self) == *old(self),
    {
        if self.state == from {
            self.state = to;
            Ok(())
        } else {
            Err(ExecutionError::InvalidState)
        }
    }
}

/// Law: transition totality of the dispute lifecycle. `dispute` succeeds
/// exactly from `Booked`; `resolve` and `chargeback` succeed exactly from
/// `Disputed`; every failing combination yields `InvalidState` and leaves the
/// record as it was.
pub proof fn lemma_transition_totality(d: BookedDeposit)
    ensures
        dispute_spec(d) is Ok <==> d.state == State::Booked,
        resolve_spec(d) is Ok <==> d.state == State::Disputed,
        chargeback_spec(d) is Ok <==> d.state == State::Disputed,
        dispute_spec(d) is Err ==> dispute_spec(d) == Err::<BookedDeposit, ExecutionError>(
            ExecutionError::InvalidState,
        ),
        resolve_spec(d) is Err ==> resolve_spec(d) == Err::<BookedDeposit, ExecutionError>(
            ExecutionError::InvalidState,
        ),
        chargeback_spec(d) is Err ==> chargeback_spec(d) == Err::<BookedDeposit, ExecutionError>(
            ExecutionError::InvalidState,
        ),
        dispute_spec(d) matches Ok(d2) ==> d2 == (BookedDeposit { state: State::Disputed, ..d }),
        resolve_spec(d) matches Ok(d2) ==> d2 == (BookedDeposit { state: State::Resolved, ..d }),
        chargeback_spec(d) matches Ok(d2) ==> d2 == (BookedDeposit {
            state: State::Chargeback,
            ..d
        }),
{
}

/// The mathematical model of a `Client`: the same data with the booking table
/// as a `Map`.
#[verifier::ext_equal]
pub ghost struct ClientView {
    pub id: ClientId,
    pub balance: Balance,
    pub bookings: Map<TransactionId, BookedDeposit>,
    pub locked: bool,
}

/// The model of a client freshly created for `id`: zero balance, no bookings,
/// not locked.
pub open spec fn client_view_new(id: ClientId) -> ClientView {
    ClientView {
        id,
        balance: Balance { frozen: 0, available: 0 },
        bookings: Map::empty(),
        locked: false,
    }
}

pub struct Client {
    pub id: ClientId,
    pub balance: Balance,
    pub bookings: BookingMap,
    pub locked: bool,
}

impl View for Client {
    type V = ClientView;

    open spec fn view(&self) -> ClientView {
        ClientView {
            id: self.id,
            balance: self.balance,
            bookings: self.bookings@,
            locked: self.locked,
        }
    }
}

impl Client {
    pub fn new(id: ClientId) -> (r: Self)
        ensures
            r@ == client_view_new(id),
    {
        Self { id, locked: false, balance: Balance::default(), bookings: HashMap::new() }
    }

    pub fn id(&self) -> (r: ClientId)
        ensures
            r == self@.id,
    {
        self.id
    }

    pub fn balance(&self) -> (r: &Balance)
        ensures
            r == self@.balance,
    {
        &self.balance
    }

    /// Locks the client permanently; nothing else changes.
    pub fn lock(&mut self)
        ensures
            final(self)@ == (ClientView { locked: true, ..old(self)@ }),
    {
        self.locked = true;
    }

    pub fn is_locked(&self) -> (r: bool)
        ensures
            r == self@.locked,
    {
        self.locked
    }

    /// Looks a booked deposit up by transaction id; an unknown id fails with
    /// `InvalidBooking`.
    pub fn get_booking(&self, tx_id: &TransactionId) -> (r: Result<&BookedDeposit, ExecutionError>)
        ensures
            match r {
                Ok(d) => self@.bookings.contains_key(*tx_id) && *d == self@.bookings[*tx_id],
                Err(e) => !self@.bookings.contains_key(*tx_id) && e == ExecutionError::InvalidBooking,
            },
    {
        match self.bookings.get(tx_id) {
            Some(d) => Ok(d),
            None => Err(ExecutionError::InvalidBooking),
        }
    }

    /// Hands out mutable access to a booked deposit by transaction id; an
    /// unknown id fails with `InvalidBooking`.
    pub fn get_booking_mut(&mut self, tx_id: &TransactionId) -> (r: Result<
        &mut BookedDeposit,
        ExecutionError,
    >)
        ensures
            old(self)@.bookings.contains_key(*tx_id) ==> (match r {
                Ok(b) => *b == old(self)@.bookings[*tx_id] && final(self)@ == (ClientView {
                    bookings: old(self)@.bookings.insert(*tx_id, *final(b)),
                    ..old(self)@
                }),
                Err(_) => false,
            }),
            !old(self)@.bookings.contains_key(*tx_id) ==> r == Err::<
                &mut BookedDeposit,
                ExecutionError,
            >(ExecutionError::InvalidBooking) && final(self)@ == old(self)@,
    {
        if !self.bookings.contains_key(tx_id) {
            return Err(ExecutionError::InvalidBooking);
        }
        match self.bookings.entry(*tx_id) {
            std::collections::hash_map::Entry::Occupied(e) => Ok(e.into_mut()),
            std::collections::hash_map::Entry::Vacant(_) => vstd::pervasive::unreached(),
        }
    }

    /// Inserts the deposit record under its own transaction id, replacing any
    /// record previously stored there.
    pub fn add_or_update_booking(&mut self, deposit: BookedDeposit)
        ensures
            final(self)@ == (ClientView {
                bookings: old(self)@.bookings.insert(deposit.tx, deposit),
                ..old(self)@
            }),
    {
        self.bookings.insert(deposit.tx, deposit);
    }

    pub fn get_balance_mut(&mut self) -> (r: &mut Balance)
        ensures
            *r == old(self)@.balance,
            final(self)@ == (ClientView { balance: *final(r), ..old(self)@ }),
    {
        &mut self.balance
    }
}

} // verus!
