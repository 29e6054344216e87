use vstd::prelude::*;

use crate::accumulator::Accumulator;
use crate::adder::Adder;
use crate::counter::{remove_all, Counter, CounterView, Error as CounterError, Transaction, MAX_INPUT};
use crate::subber::Subber;
use crate::AccountId;

verus! {

/// Which peer `change` is delegated to. A router starts with `Adder`.
#[derive(Debug, Clone, Copy, PartialEq, Eq, Structural)]
pub enum Which {
    Adder,
    Subber,
}

/// The errors of the router. Each stands for any error that the counter returned
/// to the forwarded call; which one is not kept.
#[derive(Debug, Clone, Copy, PartialEq, Eq, Structural)]
pub enum Error {
    TransactionFailed,
    AddAuthFailed,
    RemoveAuthFailed,
}

/// The peer that `switch` selects after `w`.
pub open spec fn switched(w: Which) -> Which {
    match w {
        Which::Adder => Which::Subber,
        Which::Subber => Which::Adder,
    }
}

/// The accumulator's value after `change(by)` on value `v` with `w` selected.
pub open spec fn changed(w: Which, v: int, by: int) -> int {
    match w {
        Which::Adder => v + by,
        Which::Subber => v - by,
    }
}

/// Whether `change(by)` can be applied to value `v` with `w` selected without
/// leaving the range of `i32`.
pub open spec fn change_fits(w: Which, v: int, by: int) -> bool {
    &&& w == Which::Subber ==> by != i32::MIN
    &&& i32::MIN <= changed(w, v, by) <= i32::MAX
}

/// The abstract state of a router and of the peers it reaches.
pub ghost struct ForwardView {
    pub which: Which,
    pub value: i32,
    pub adder: Adder,
    pub subber: Subber,
    pub counter: CounterView,
}

/// Forwards calls to an adder or a subber, which change the value of an
/// accumulator, and to a counter, whose errors it reduces to its own.
pub struct Forward {
    which: Which,
    accumulator: Accumulator,
    adder: Adder,
    subber: Subber,
    counter: Counter,
}

impl View for Forward {
    type V = ForwardView;

    closed spec fn view(&self) -> ForwardView {
        ForwardView {
            which: self.which,
            value: self.accumulator@,
            adder: self.adder,
            subber: self.subber,
            counter: self.counter@,
        }
    }
}

impl Forward {
    /// Whether the counter that the router reaches is consistent.
    pub closed spec fn wf(&self) -> bool {
        self.counter.wf()
    }

    /// Creates a router over its four peers, with the adder selected.
    pub fn new(accumulator: Accumulator, adder: Adder, subber: Subber, counter: Counter) -> (r: Self)
        requires
            counter.wf(),
        ensures
            r.wf(),
            r@ == (ForwardView {
                which: Which::Adder,
                value: accumulator@,
                adder,
                subber,
                counter: counter@,
            }),
    {
        Forward { which: Which::Adder, accumulator, adder, subber, counter }
    }

    /// The accumulator's value.
    pub fn get(&self) -> (r: i32)
        ensures
            r == self@.value,
    {
        self.accumulator.get()
    }

    /// Hands `by` to the selected peer: the adder adds it to the accumulator's
    /// value, the subber subtracts it.
    pub fn change(&mut self, by: i32)
        requires
            change_fits(old(self)@.which, old(self)@.value as int, by as int),
        ensures
            final(self).wf() == old(self).wf(),
            final(self)@ == (ForwardView {
                value: changed(old(self)@.which, old(self)@.value as int, by as int) as i32,
                ..old(self)@
            }),
    {
        match self.which {
            Which::Adder => self.adder.inc(&mut self.accumulator, by),
            Which::Subber => self.subber.dec(&mut self.accumulator, by),
        }
    }

    /// Selects the other peer for `change`.
    pub fn switch(&mut self)
        ensures
            final(self).wf() == old(self).wf(),
            final(self)@ == (ForwardView { which: switched(old(self)@.which), ..old(self)@ }),
    {
        match self.which {
            Which::Adder => {
                self.which = Which::Subber;
            },
            Which::Subber => {
                self.which = Which::Adder;
            },
        }
    }

    /// The counter's count.
    pub fn get_count_value(&self) -> (r: u64)
        ensures
            r == self@.counter.count,
    {
        self.counter.get_count()
    }

    /// The counter's authorized principals.
    pub fn get_auth_id(&self) -> (r: Vec<AccountId>)
        ensures
            r@ == self@.counter.auth,
    {
        self.counter.get_auth()
    }

    /// The events that the counter recorded.
    pub fn counter_events(&self) -> (r: &Vec<Transaction>)
        ensures
            r@ == self@.counter.events,
    {
        self.counter.events()
    }

    /// Forwards `execute(value)` to the counter on behalf of `caller`. An abort of
    /// the counter's guard comes back as the outer `Err` and changes nothing; any
    /// other error of the counter becomes `TransactionFailed`.
    pub fn execution(&mut self, caller: AccountId, value: u64) -> (r: Result<Result<(), Error>, CounterError>)
        requires
            old(self).wf(),
            old(self)@.counter.authorized(caller) && value <= MAX_INPUT
                ==> old(self)@.counter.count + value <= u64::MAX,
        ensures
            final(self).wf(),
            old(self)@.counter.guard(caller) is Some
                ==> r == Err::<Result<(), Error>, CounterError>(old(self)@.counter.guard(caller)->0),
            r is Err || r == Ok::<Result<(), Error>, CounterError>(Err(Error::TransactionFailed))
                ==> *final(self) == *old(self),
            r == Ok::<Result<(), Error>, CounterError>(Err(Error::TransactionFailed))
                <==> old(self)@.counter.authorized(caller) && value > MAX_INPUT,
            r == Ok::<Result<(), Error>, CounterError>(Ok(()))
                <==> old(self)@.counter.authorized(caller) && value <= MAX_INPUT,
            r == Ok::<Result<(), Error>, CounterError>(Ok(())) ==> final(self)@ == (ForwardView {
                counter: CounterView {
                    count: (old(self)@.counter.count + value) as u64,
                    events: old(self)@.counter.events.push(Transaction { value }),
                    ..old(self)@.counter
                },
                ..old(self)@
            }),
    {
        match self.counter.execute(caller, value) {
            Ok(()) => Ok(Ok(())),
            Err(e) => {
                if e.is_fatal() {
                    Err(e)
                } else {
                    Ok(Err(Error::TransactionFailed))
                }
            },
        }
    }

    /// Forwards `add_auth(auth)` to the counter on behalf of `caller`. An abort of
    /// the counter's guard comes back as the outer `Err` and changes nothing; any
    /// other error of the counter becomes `AddAuthFailed`.
    pub fn add_auth_tx(&mut self, caller: AccountId, auth: AccountId) -> (r: Result<Result<(), Error>, CounterError>)
        requires
            old(self).wf(),
        ensures
            final(self).wf(),
            old(self)@.counter.guard(caller) is Some
                ==> r == Err::<Result<(), Error>, CounterError>(old(self)@.counter.guard(caller)->0),
            r is Err || r == Ok::<Result<(), Error>, CounterError>(Err(Error::AddAuthFailed))
                ==> *final(self) == *old(self),
            r == Ok::<Result<(), Error>, CounterError>(Err(Error::AddAuthFailed))
                <==> old(self)@.counter.authorized(caller) && old(self)@.counter.auth.contains(auth),
            r == Ok::<Result<(), Error>, CounterError>(Ok(()))
                <==> old(self)@.counter.authorized(caller) && !old(self)@.counter.auth.contains(auth),
            r == Ok::<Result<(), Error>, CounterError>(Ok(())) ==> final(self)@ == (ForwardView {
                counter: CounterView { auth: old(self)@.counter.auth.push(auth), ..old(self)@.counter },
                ..old(self)@
            }),
    {
        match self.counter.add_auth(caller, auth) {
            Ok(()) => Ok(Ok(())),
            Err(e) => {
                if e.is_fatal() {
                    Err(e)
                } else {
                    Ok(Err(Error::AddAuthFailed))
                }
            },
        }
    }

    /// Forwards `remove_auth(auth)` to the counter on behalf of `caller`. An abort
    /// of the counter's guard comes back as the outer `Err` and changes nothing;
    /// any other error of the counter becomes `RemoveAuthFailed`.
    pub fn remove_auth_tx(&mut self, caller: AccountId, auth: AccountId) -> (r: Result<Result<(), Error>, CounterError>)
        requires
            old(self).wf(),
        ensures
            final(self).wf(),
            old(self)@.counter.guard(caller) is Some
                ==> r == Err::<Result<(), Error>, CounterError>(old(self)@.counter.guard(caller)->0),
            r is Err || r == Ok::<Result<(), Error>, CounterError>(Err(Error::RemoveAuthFailed))
                ==> *final(self) == *old(self),
            r == Ok::<Result<(), Error>, CounterError>(Err(Error::RemoveAuthFailed))
                <==> old(self)@.counter.authorized(caller)
                    && (old(self)@.counter.auth.len() == 1 || !old(self)@.counter.auth.contains(auth)),
            r == Ok::<Result<(), Error>, CounterError>(Ok(()))
                <==> old(self)@.counter.authorized(caller) && old(self)@.counter.auth.len() != 1
                    && old(self)@.counter.auth.contains(auth),
            r == Ok::<Result<(), Error>, CounterError>(Ok(())) ==> final(self)@ == (ForwardView {
                counter: CounterView { auth: remove_all(old(self)@.counter.auth, auth), ..old(self)@.counter },
                ..old(self)@
            }),
    {
        match self.counter.remove_auth(caller, auth) {
            Ok(()) => Ok(Ok(())),
            Err(e) => {
                if e.is_fatal() {
                    Err(e)
                } else {
                    Ok(Err(Error::RemoveAuthFailed))
                }
            },
        }
    }

    /// Forwards `increment` to the counter on behalf of `caller`. An abort of the
    /// counter's guard comes back as `Err` and changes nothing.
    pub fn increment_tx(&mut self, caller: AccountId) -> (r: Result<(), CounterError>)
        requires
            old(self).wf(),
            old(self)@.counter.authorized(caller) ==> old(self)@.counter.count < u64::MAX,
        ensures
            final(self).wf(),
            old(self)@.counter.guard(caller) is Some
                ==> r == Err::<(), CounterError>(old(self)@.counter.guard(caller)->0) && *final(self) == *old(self),
            r is Ok <==> old(self)@.counter.authorized(caller),
            r is Ok ==> final(self)@ == (ForwardView {
                counter: old(self)@.counter.with_count((old(self)@.counter.count + 1) as u64),
                ..old(self)@
            }),
    {
        self.counter.increment(caller)
    }

    /// Forwards `decrement` to the counter on behalf of `caller`. An abort of the
    /// counter's guard comes back as `Err` and changes nothing.
    pub fn decrement_tx(&mut self, caller: AccountId) -> (r: Result<(), CounterError>)
        requires
            old(self).wf(),
            old(self)@.counter.authorized(caller) ==> old(self)@.counter.count > 0,
        ensures
            final(self).wf(),
            old(self)@.counter.guard(caller) is Some
                ==> r == Err::<(), CounterError>(old(self)@.counter.guard(caller)->0) && *final(self) == *old(self),
            r is Ok <==> old(self)@.counter.authorized(caller),
            r is Ok ==> final(self)@ == (ForwardView {
                counter: old(self)@.counter.with_count((old(self)@.counter.count - 1) as u64),
                ..old(self)@
            }),
    {
        self.counter.decrement(caller)
    }
}

/// Switching twice selects the peer that was selected before, and a change after
/// the two switches moves the accumulator's value as it did before them.
pub proof fn lemma_switch_twice(w: Which, v: int, by: int)
    ensures
        switched(switched(w)) == w,
        changed(switched(switched(w)), v, by) == changed(w, v, by),
        change_fits(switched(switched(w)), v, by) == change_fits(w, v, by),
{
}

/// A change by `by` followed by a switch and a second change by `by` leaves the
/// accumulator's value where it started.
pub proof fn lemma_change_switch_change(w: Which, v: int, by: int)
    ensures
        changed(switched(w), changed(w, v, by), by) == v,
{
}

} // verus!
