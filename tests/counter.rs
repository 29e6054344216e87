use delegator::counter::{Counter, Error, Transaction};
use delegator::AccountId;

fn ready(owner: AccountId) -> Counter {
    let mut c = Counter::new(0);
    assert_eq!(c.init(0, owner), Ok(()));
    c
}

#[test]
fn counter_scenario() {
    let a = AccountId(1);
    let b = AccountId(2);
    let mut c = ready(a);
    assert_eq!(c.execute(a, 5), Ok(()));
    assert_eq!(c.get_count(), 5);
    assert_eq!(c.events(), &vec![Transaction { value: 5 }]);
    assert_eq!(c.execute(a, 11), Err(Error::ValueIsOver10));
    assert_eq!(c.get_count(), 5);
    assert_eq!(c.add_auth(a, b), Ok(()));
    assert_eq!(c.execute(b, 3), Ok(()));
    assert_eq!(c.get_count(), 8);
    assert_eq!(c.remove_auth(b, a), Ok(()));
    assert_eq!(c.get_auth(), vec![b]);
    assert_eq!(c.remove_auth(b, b), Err(Error::BecomeZeroAuth));
    assert_eq!(c.get_auth(), vec![b]);
}

#[test]
fn new_counter_is_uninitialized() {
    let c = Counter::new(7);
    assert_eq!(c.get_count(), 7);
    assert!(c.get_auth().is_empty());
    assert!(c.events().is_empty());
    assert_eq!(c.only_auth(AccountId(1)), Err(Error::NotInitialized));
}

#[test]
fn init_sets_count_and_first_authority() {
    let mut c = Counter::new(7);
    assert_eq!(c.init(3, AccountId(9)), Ok(()));
    assert_eq!(c.get_count(), 3);
    assert_eq!(c.get_auth(), vec![AccountId(9)]);
    assert_eq!(c.only_auth(AccountId(9)), Ok(()));
}

#[test]
fn second_init_is_refused() {
    let mut c = ready(AccountId(1));
    assert_eq!(c.init(50, AccountId(2)), Err(Error::AlreadyInitialized));
    assert_eq!(c.get_count(), 0);
    assert_eq!(c.get_auth(), vec![AccountId(1)]);
}

#[test]
fn guard_rejects_before_init() {
    let a = AccountId(1);
    let mut c = Counter::new(4);
    assert_eq!(c.execute(a, 1), Err(Error::NotInitialized));
    assert_eq!(c.add_auth(a, a), Err(Error::NotInitialized));
    assert_eq!(c.remove_auth(a, a), Err(Error::NotInitialized));
    assert_eq!(c.increment(a), Err(Error::NotInitialized));
    assert_eq!(c.decrement(a), Err(Error::NotInitialized));
    assert_eq!(c.reset(a), Err(Error::NotInitialized));
    assert_eq!(c.get_count(), 4);
    assert!(c.get_auth().is_empty());
    assert!(c.events().is_empty());
}

#[test]
fn guard_rejects_stranger() {
    let a = AccountId(1);
    let x = AccountId(66);
    let mut c = ready(a);
    assert_eq!(c.execute(a, 2), Ok(()));
    assert_eq!(c.execute(x, 1), Err(Error::CallerNotAuth));
    assert_eq!(c.add_auth(x, x), Err(Error::CallerNotAuth));
    assert_eq!(c.remove_auth(x, a), Err(Error::CallerNotAuth));
    assert_eq!(c.increment(x), Err(Error::CallerNotAuth));
    assert_eq!(c.decrement(x), Err(Error::CallerNotAuth));
    assert_eq!(c.reset(x), Err(Error::CallerNotAuth));
    assert_eq!(c.get_count(), 2);
    assert_eq!(c.get_auth(), vec![a]);
    assert_eq!(c.events(), &vec![Transaction { value: 2 }]);
    assert!(Error::CallerNotAuth.is_fatal());
    assert!(Error::NotInitialized.is_fatal());
    assert!(!Error::ValueIsOver10.is_fatal());
}

#[test]
fn execute_accepts_up_to_ten() {
    let a = AccountId(1);
    let mut c = ready(a);
    assert_eq!(c.execute(a, 10), Ok(()));
    assert_eq!(c.execute(a, 0), Ok(()));
    assert_eq!(c.get_count(), 10);
    assert_eq!(c.events(), &vec![Transaction { value: 10 }, Transaction { value: 0 }]);
    assert_eq!(c.execute(a, 11), Err(Error::ValueIsOver10));
    assert_eq!(c.execute(a, u64::MAX), Err(Error::ValueIsOver10));
    assert_eq!(c.get_count(), 10);
    assert_eq!(c.events().len(), 2);
}

#[test]
fn add_auth_refuses_duplicate() {
    let a = AccountId(1);
    let mut c = ready(a);
    assert_eq!(c.add_auth(a, a), Err(Error::AlreadyRegistered));
    assert_eq!(c.add_auth(a, AccountId(2)), Ok(()));
    assert_eq!(c.add_auth(a, AccountId(2)), Err(Error::AlreadyRegistered));
    assert_eq!(c.get_auth(), vec![a, AccountId(2)]);
}

#[test]
fn remove_auth_refuses_absent() {
    let a = AccountId(1);
    let mut c = ready(a);
    assert_eq!(c.add_auth(a, AccountId(2)), Ok(()));
    assert_eq!(c.remove_auth(a, AccountId(3)), Err(Error::AlreadyRemoved));
    assert_eq!(c.get_auth(), vec![a, AccountId(2)]);
}

#[test]
fn remove_auth_sole_member_refused_whoever_the_target() {
    let a = AccountId(1);
    let mut c = ready(a);
    assert_eq!(c.remove_auth(a, a), Err(Error::BecomeZeroAuth));
    assert_eq!(c.remove_auth(a, AccountId(5)), Err(Error::BecomeZeroAuth));
    assert_eq!(c.get_auth(), vec![a]);
}

#[test]
fn remove_auth_keeps_order_of_the_rest() {
    let a = AccountId(1);
    let mut c = ready(a);
    for i in 2..6 {
        assert_eq!(c.add_auth(a, AccountId(i)), Ok(()));
    }
    assert_eq!(c.remove_auth(a, AccountId(3)), Ok(()));
    assert_eq!(c.get_auth(), vec![a, AccountId(2), AccountId(4), AccountId(5)]);
}

#[test]
fn add_then_remove_restores_list() {
    let a = AccountId(1);
    let mut c = ready(a);
    assert_eq!(c.add_auth(a, AccountId(2)), Ok(()));
    let before = c.get_auth();
    assert_eq!(c.add_auth(a, AccountId(7)), Ok(()));
    assert_eq!(c.remove_auth(a, AccountId(7)), Ok(()));
    assert_eq!(c.get_auth(), before);
}

#[test]
fn list_never_empties() {
    let a = AccountId(1);
    let b = AccountId(2);
    let mut c = ready(a);
    assert_eq!(c.add_auth(a, b), Ok(()));
    assert_eq!(c.remove_auth(b, b), Ok(()));
    assert_eq!(c.remove_auth(a, a), Err(Error::BecomeZeroAuth));
    assert_eq!(c.get_auth(), vec![a]);
}

#[test]
fn increment_decrement_reset() {
    let a = AccountId(1);
    let mut c = ready(a);
    assert_eq!(c.increment(a), Ok(()));
    assert_eq!(c.increment(a), Ok(()));
    assert_eq!(c.get_count(), 2);
    assert_eq!(c.decrement(a), Ok(()));
    assert_eq!(c.get_count(), 1);
    assert_eq!(c.execute(a, 9), Ok(()));
    assert_eq!(c.reset(a), Ok(()));
    assert_eq!(c.get_count(), 0);
}
