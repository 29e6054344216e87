use vstd::prelude::*;

use crate::AccountId;

verus! {

/// The largest value that `execute` accepts.
pub const MAX_INPUT: u64 = 10;

/// The errors of the counter. `NotInitialized` and `CallerNotAuth` come from the
/// authorization guard: they abort the call, which then changes nothing.
#[derive(Debug, Clone, Copy, PartialEq, Eq, Structural)]
pub enum Error {
    AlreadyInitialized,
    NotInitialized,
    AlreadyRegistered,
    AlreadyRemoved,
    BecomeZeroAuth,
    ValueIsOver10,
    CallerNotAuth,
}

impl Error {
    /// Whether this error is an abort of the authorization guard, as opposed to
    /// an error that the operation itself returns.
    pub open spec fn is_fatal_spec(self) -> bool {
        self == Error::NotInitialized || self == Error::CallerNotAuth
    }

    /// Whether this error is an abort of the authorization guard.
    #[verifier::when_used_as_spec(is_fatal_spec)]
    pub fn is_fatal(self) -> (r: bool)
        ensures
            r == self.is_fatal_spec(),
    {
        match self {
            Error::NotInitialized | Error::CallerNotAuth => true,
            _ => false,
        }
    }
}

/// The event recorded by a successful `execute`.
#[derive(Debug, Clone, Copy, PartialEq, Eq, Structural)]
pub struct Transaction {
    pub value: u64,
}

/// The abstract state of a counter.
pub ghost struct CounterView {
    pub count: u64,
    pub auth: Seq<AccountId>,
    pub init: bool,
    pub events: Seq<Transaction>,
}

impl CounterView {
    /// Whether `caller` passes the authorization guard.
    pub open spec fn authorized(self, caller: AccountId) -> bool {
        self.init && self.auth.contains(caller)
    }

    /// The abort that the guard raises for `caller`, if any.
    pub open spec fn guard(self, caller: AccountId) -> Option<Error> {
        if !self.init {
            Some(Error::NotInitialized)
        } else if !self.auth.contains(caller) {
            Some(Error::CallerNotAuth)
        } else {
            None
        }
    }

    /// The same state with another count.
    pub open spec fn with_count(self, count: u64) -> CounterView {
        CounterView { count, ..self }
    }
}

/// The list `s` without any occurrence of `p`, in the order of `s`.
pub open spec fn remove_all(s: Seq<AccountId>, p: AccountId) -> Seq<AccountId>
    decreases s.len(),
{
    if s.len() == 0 {
        Seq::empty()
    } else {
        let rest = remove_all(s.drop_last(), p);
        if s.last() == p {
            rest
        } else {
            rest.push(s.last())
        }
    }
}

/// A counter that only the principals on its list may change. Anybody may read it.
pub struct Counter {
    count: u64,
    auth: Vec<AccountId>,
    init: bool,
    events: Vec<Transaction>,
}

impl View for Counter {
    type V = CounterView;

    closed spec fn view(&self) -> CounterView {
        CounterView { count: self.count, auth: self.auth@, init: self.init, events: self.events@ }
    }
}

proof fn lemma_remove_all_contains(s: Seq<AccountId>, p: AccountId, q: AccountId)
    ensures
        remove_all(s, p).contains(q) <==> (s.contains(q) && q != p),
    decreases s.len(),
{
    if s.len() > 0 {
        let init = s.drop_last();
        lemma_remove_all_contains(init, p, q);
        assert(s == init.push(s.last()));
        if s.contains(q) {
            let i = choose|i: int| 0 <= i < s.len() && s[i] == q;
            if i < s.len() - 1 {
                assert(init[i] == q);
            }
        }
        if init.contains(q) {
            let i = choose|i: int| 0 <= i < init.len() && init[i] == q;
            assert(s[i] == q);
        }
        let rest = remove_all(init, p);
        if s.last() != p {
            if rest.contains(q) {
                let i = choose|i: int| 0 <= i < rest.len() && rest[i] == q;
                assert(rest.push(s.last())[i] == q);
            }
            if rest.push(s.last()).contains(q) {
                let i = choose|i: int| 0 <= i < rest.len() + 1 && rest.push(s.last())[i] == q;
                if i < rest.len() {
                    assert(rest[i] == q);
                }
            }
            assert(rest.push(s.last())[rest.len() as int] == s.last());
        }
    }
}

proof fn lemma_remove_all_no_duplicates(s: Seq<AccountId>, p: AccountId)
    requires
        s.no_duplicates(),
    ensures
        remove_all(s, p).no_duplicates(),
    decreases s.len(),
{
    if s.len() > 0 {
        let init = s.drop_last();
        assert(init.no_duplicates()) by {
            assert forall|i: int, j: int| 0 <= i < init.len() && 0 <= j < init.len() && i != j
                implies init[i] != init[j] by {
                assert(init[i] == s[i] && init[j] == s[j]);
            }
        }
        lemma_remove_all_no_duplicates(init, p);
        let rest = remove_all(init, p);
        if s.last() != p {
            assert(!init.contains(s.last())) by {
                if init.contains(s.last()) {
                    let i = choose|i: int| 0 <= i < init.len() && init[i] == s.last();
                    assert(s[i] == s[s.len() - 1]);
                }
            }
            lemma_remove_all_contains(init, p, s.last());
            push_keeps_no_duplicates(rest, s.last());
        }
    }
}

proof fn push_keeps_no_duplicates(s: Seq<AccountId>, x: AccountId)
    requires
        s.no_duplicates(),
        !s.contains(x),
    ensures
        s.push(x).no_duplicates(),
{
    let t = s.push(x);
    assert forall|i: int, j: int| 0 <= i < t.len() && 0 <= j < t.len() && i != j
        implies t[i] != t[j] by {
        if i < s.len() && j < s.len() {
            assert(t[i] == s[i] && t[j] == s[j]);
        } else if i < s.len() {
            assert(t[i] == s[i]);
        } else if j < s.len() {
            assert(t[j] == s[j]);
        }
    }
}

/// Removing every occurrence of a principal that is absent changes nothing.
pub proof fn lemma_remove_all_absent(s: Seq<AccountId>, p: AccountId)
    requires
        !s.contains(p),
    ensures
        remove_all(s, p) == s,
    decreases s.len(),
{
    if s.len() > 0 {
        let init = s.drop_last();
        assert(!init.contains(p)) by {
            if init.contains(p) {
                let i = choose|i: int| 0 <= i < init.len() && init[i] == p;
                assert(s[i] == p);
            }
        }
        lemma_remove_all_absent(init, p);
        assert(s.last() != p) by {
            assert(s[s.len() - 1] == s.last());
        }
        assert(init.push(s.last()) == s);
    }
}

/// Adding a principal that is not on the list and then removing it gives back
/// the list as it was, in the same order.
pub proof fn lemma_add_then_remove(auth: Seq<AccountId>, p: AccountId)
    requires
        !auth.contains(p),
    ensures
        remove_all(auth.push(p), p) == auth,
{
    assert(auth.push(p).drop_last() == auth);
    lemma_remove_all_absent(auth, p);
}

/// Whether `p` occurs in `v`.
fn contains(v: &Vec<AccountId>, p: AccountId) -> (r: bool)
    ensures
        r == v@.contains(p),
{
    let mut i: usize = 0;
    while i < v.len()
        invariant
            i <= v.len(),
            forall|j: int| 0 <= j < i ==> v@[j] != p,
        decreases v.len() - i,
    {
        if v[i] == p {
            assert(v@[i as int] == p);
            return true;
        }
        i = i + 1;
    }
    false
}

/// `v` without any occurrence of `p`.
fn without(v: &Vec<AccountId>, p: AccountId) -> (r: Vec<AccountId>)
    ensures
        r@ == remove_all(v@, p),
{
    let mut out: Vec<AccountId> = Vec::new();
    let mut i: usize = 0;
    while i < v.len()
        invariant
            i <= v.len(),
            out@ == remove_all(v@.subrange(0, i as int), p),
        decreases v.len() - i,
    {
        assert(v@.subrange(0, i + 1).drop_last() == v@.subrange(0, i as int));
        if v[i] != p {
            out.push(v[i]);
        }
        i = i + 1;
    }
    assert(v@.subrange(0, v.len() as int) == v@);
    out
}

impl Counter {
    /// Whether the counter's state is consistent: the list holds no principal
    /// twice, is empty before `init` and holds at least one principal after it.
    pub closed spec fn wf(&self) -> bool {
        &&& self.auth@.no_duplicates()
        &&& self.init ==> self.auth@.len() > 0
        &&& !self.init ==> self.auth@.len() == 0
    }

    /// Creates an uninitialized counter, with no authorized principal and no event.
    pub fn new(init_count: u64) -> (r: Self)
        ensures
            r.wf(),
            r@ == (CounterView { count: init_count, auth: Seq::empty(), init: false, events: Seq::empty() }),
    {
        Counter { count: init_count, auth: Vec::new(), init: false, events: Vec::new() }
    }

    /// Initializes the counter: sets its count and makes `auth` the first
    /// authorized principal. Only the first call succeeds.
    pub fn init(&mut self, init_count: u64, auth: AccountId) -> (r: Result<(), Error>)
        requires
            old(self).wf(),
        ensures
            final(self).wf(),
            old(self)@.init ==> r == Err::<(), Error>(Error::AlreadyInitialized) && *final(self) == *old(self),
            !old(self)@.init ==> r is Ok && final(self)@ == (CounterView {
                count: init_count,
                auth: seq![auth],
                init: true,
                events: old(self)@.events,
            }),
    {
        if self.init {
            return Err(Error::AlreadyInitialized);
        }
        self.count = init_count;
        self.auth.push(auth);
        self.init = true;
        proof {
            assert(self.auth@ == seq![auth]);
        }
        Ok(())
    }

    /// The authorization guard: fails with the abort that `caller` meets, if any.
    pub fn only_auth(&self, caller: AccountId) -> (r: Result<(), Error>)
        ensures
            self@.guard(caller) is None <==> r is Ok,
            self@.guard(caller) is Some ==> r == Err::<(), Error>(self@.guard(caller)->0),
    {
        if !self.init {
            return Err(Error::NotInitialized);
        }
        if !contains(&self.auth, caller) {
            return Err(Error::CallerNotAuth);
        }
        Ok(())
    }

    /// Adds `input` to the count and records a `Transaction` carrying it. On behalf
    /// of `caller`, which must pass the guard; `input` must not exceed `MAX_INPUT`.
    pub fn execute(&mut self, caller: AccountId, input: u64) -> (r: Result<(), Error>)
        requires
            old(self).wf(),
            old(self)@.authorized(caller) && input <= MAX_INPUT ==> old(self)@.count + input <= u64::MAX,
        ensures
            final(self).wf(),
            old(self)@.guard(caller) is Some ==> r == Err::<(), Error>(old(self)@.guard(caller)->0),
            old(self)@.authorized(caller) && input > MAX_INPUT ==> r == Err::<(), Error>(Error::ValueIsOver10),
            r is Err ==> *final(self) == *old(self),
            r is Ok <==> old(self)@.authorized(caller) && input <= MAX_INPUT,
            r is Ok ==> final(self)@ == (CounterView {
                count: (old(self)@.count + input) as u64,
                events: old(self)@.events.push(Transaction { value: input }),
                ..old(self)@
            }),
    {
        match self.only_auth(caller) {
            Err(e) => return Err(e),
            Ok(()) => {},
        }
        if input > MAX_INPUT {
            return Err(Error::ValueIsOver10);
        }
        self.count = self.count + input;
        self.events.push(Transaction { value: input });
        Ok(())
    }

    /// Appends `new_auth` to the authorized principals, on behalf of `caller`,
    /// which must pass the guard. A principal already there is refused.
    pub fn add_auth(&mut self, caller: AccountId, new_auth: AccountId) -> (r: Result<(), Error>)
        requires
            old(self).wf(),
        ensures
            final(self).wf(),
            old(self)@.guard(caller) is Some ==> r == Err::<(), Error>(old(self)@.guard(caller)->0),
            old(self)@.authorized(caller) && old(self)@.auth.contains(new_auth)
                ==> r == Err::<(), Error>(Error::AlreadyRegistered),
            r is Err ==> *final(self) == *old(self),
            r is Ok <==> old(self)@.authorized(caller) && !old(self)@.auth.contains(new_auth),
            r is Ok ==> final(self)@ == (CounterView { auth: old(self)@.auth.push(new_auth), ..old(self)@ }),
    {
        match self.only_auth(caller) {
            Err(e) => return Err(e),
            Ok(()) => {},
        }
        if contains(&self.auth, new_auth) {
            return Err(Error::AlreadyRegistered);
        }
        proof {
            push_keeps_no_duplicates(self.auth@, new_auth);
        }
        self.auth.push(new_auth);
        Ok(())
    }

    /// Removes every occurrence of `auth` from the authorized principals, on behalf
    /// of `caller`, which must pass the guard. A list of one principal is left as
    /// it is, whoever the target; an absent principal is refused.
    pub fn remove_auth(&mut self, caller: AccountId, auth: AccountId) -> (r: Result<(), Error>)
        requires
            old(self).wf(),
        ensures
            final(self).wf(),
            old(self)@.guard(caller) is Some ==> r == Err::<(), Error>(old(self)@.guard(caller)->0),
            old(self)@.authorized(caller) ==> (r == Err::<(), Error>(Error::BecomeZeroAuth)
                <==> old(self)@.auth.len() == 1),
            old(self)@.authorized(caller) && old(self)@.auth.len() != 1 && !old(self)@.auth.contains(auth)
                ==> r == Err::<(), Error>(Error::AlreadyRemoved),
            r is Err ==> *final(self) == *old(self),
            r is Ok <==> old(self)@.authorized(caller) && old(self)@.auth.len() != 1
                && old(self)@.auth.contains(auth),
            r is Ok ==> final(self)@ == (CounterView { auth: remove_all(old(self)@.auth, auth), ..old(self)@ }),
    {
        match self.only_auth(caller) {
            Err(e) => return Err(e),
            Ok(()) => {},
        }
        if self.auth.len() == 1 {
            return Err(Error::BecomeZeroAuth);
        }
        if !contains(&self.auth, auth) {
            return Err(Error::AlreadyRemoved);
        }
        let kept = without(&self.auth, auth);
        proof {
            let s = self.auth@;
            lemma_remove_all_no_duplicates(s, auth);
            let other = if s[0] != auth { s[0] } else { s[1] };
            assert(s.contains(other)) by {
                if s[0] != auth {
                    assert(s[0] == other);
                } else {
                    assert(s[1] == other);
                }
            }
            assert(other != auth) by {
                if s[0] == auth {
                    assert(s[0] != s[1]);
                }
            }
            lemma_remove_all_contains(s, auth, other);
        }
        self.auth = kept;
        Ok(())
    }

    /// Adds one to the count, on behalf of `caller`, which must pass the guard.
    pub fn increment(&mut self, caller: AccountId) -> (r: Result<(), Error>)
        requires
            old(self).wf(),
            old(self)@.authorized(caller) ==> old(self)@.count < u64::MAX,
        ensures
            final(self).wf(),
            old(self)@.guard(caller) is Some ==> r == Err::<(), Error>(old(self)@.guard(caller)->0)
                && *final(self) == *old(self),
            r is Ok <==> old(self)@.authorized(caller),
            r is Ok ==> final(self)@ == old(self)@.with_count((old(self)@.count + 1) as u64),
    {
        match self.only_auth(caller) {
            Err(e) => return Err(e),
            Ok(()) => {},
        }
        self.count = self.count + 1;
        Ok(())
    }

    /// Subtracts one from the count, on behalf of `caller`, which must pass the guard.
    pub fn decrement(&mut self, caller: AccountId) -> (r: Result<(), Error>)
        requires
            old(self).wf(),
            old(self)@.authorized(caller) ==> old(self)@.count > 0,
        ensures
            final(self).wf(),
            old(self)@.guard(caller) is Some ==> r == Err::<(), Error>(old(self)@.guard(caller)->0)
                && *final(self) == *old(self),
            r is Ok <==> old(self)@.authorized(caller),
            r is Ok ==> final(self)@ == old(self)@.with_count((old(self)@.count - 1) as u64),
    {
        match self.only_auth(caller) {
            Err(e) => return Err(e),
            Ok(()) => {},
        }
        self.count = self.count - 1;
        Ok(())
    }

    /// Sets the count to zero, on behalf of `caller`, which must pass the guard.
    pub fn reset(&mut self, caller: AccountId) -> (r: Result<(), Error>)
        requires
            old(self).wf(),
        ensures
            final(self).wf(),
            old(self)@.guard(caller) is Some ==> r == Err::<(), Error>(old(self)@.guard(caller)->0)
                && *final(self) == *old(self),
            r is Ok <==> old(self)@.authorized(caller),
            r is Ok ==> final(self)@ == old(self)@.with_count(0),
    {
        match self.only_auth(caller) {
            Err(e) => return Err(e),
            Ok(()) => {},
        }
        self.count = 0;
        Ok(())
    }

    /// The current count. Anybody may read it.
    pub fn get_count(&self) -> (r: u64)
        ensures
            r == self@.count,
    {
        self.count
    }

    /// The authorized principals, in the order they were added. Anybody may read them.
    pub fn get_auth(&self) -> (r: Vec<AccountId>)
        ensures
            r@ == self@.auth,
    {
        self.auth.clone()
    }

    /// The events recorded so far, oldest first.
    pub fn events(&self) -> (r: &Vec<Transaction>)
        ensures
            r@ == self@.events,
    {
        &self.events
    }

    /// Once a counter is initialized, its list of principals is never empty.
    pub proof fn lemma_auth_never_empty(&self)
        requires
            self.wf(),
            self@.init,
        ensures
            self@.auth.len() > 0,
    {
    }
}

} // verus!
