use locker::access::AccessControl;
use locker::account::{bytes_equal, AccountId};
use locker::error::Error;

fn account(name: &str) -> AccountId {
    AccountId::new(name.as_bytes().to_vec())
}

#[test]
fn bytes_are_equal_when_all_of_them_are() {
    assert!(bytes_equal(&[], &[]));
    assert!(bytes_equal(&[1, 2, 3], &[1, 2, 3]));
    assert!(!bytes_equal(&[1, 2, 3], &[1, 2]));
    assert!(!bytes_equal(&[1, 2], &[1, 2, 3]));
    assert!(!bytes_equal(&[1, 2, 3], &[1, 2, 4]));
    assert!(!bytes_equal(&[0, 2, 3], &[1, 2, 3]));
}

#[test]
fn accounts_are_the_same_when_their_bytes_are() {
    assert!(account("alice").same(&account("alice")));
    assert!(!account("alice").same(&account("alicf")));
    assert!(!account("alice").same(&account("")));
    assert!(AccountId::new(vec![]).same(&account("")));
    assert_eq!(account("bob").clone(), account("bob"));
}

#[test]
fn authorize_lets_the_owner_pass() {
    let access = AccessControl::new(account("alice"));
    assert_eq!(access.authorize(&account("alice")), Ok(()));
    assert_eq!(access.authorize(&account("bob")), Err(Error::AuthorizationError));
    assert_eq!(access.owner(), Some(account("alice")));
    let nobody = AccessControl::with_owner(None);
    assert_eq!(nobody.authorize(&account("alice")), Err(Error::AuthorizationError));
    assert_eq!(nobody.owner(), None);
    let bob = AccessControl::with_owner(Some(account("bob")));
    assert_eq!(bob.authorize(&account("bob")), Ok(()));
}

#[test]
fn only_the_owner_hands_ownership_on() {
    let mut access = AccessControl::new(account("alice"));
    assert_eq!(
        access.transfer_ownership(&account("bob"), account("bob")),
        Err(Error::AuthorizationError)
    );
    assert_eq!(access.owner(), Some(account("alice")));
    assert_eq!(access.transfer_ownership(&account("alice"), account("bob")), Ok(()));
    assert_eq!(access.owner(), Some(account("bob")));
    assert_eq!(access.renounce_ownership(&account("alice")), Err(Error::AuthorizationError));
    assert_eq!(access.owner(), Some(account("bob")));
    assert_eq!(access.renounce_ownership(&account("bob")), Ok(()));
    assert_eq!(access.owner(), None);
    assert_eq!(access.renounce_ownership(&account("bob")), Err(Error::AuthorizationError));
    assert_eq!(
        access.transfer_ownership(&account("bob"), account("bob")),
        Err(Error::AuthorizationError)
    );
    assert_eq!(access.owner(), None);
}
