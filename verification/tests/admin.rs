use locker::account::AccountId;
use locker::error::{Erc20Error, Error, ErrorKind};
use locker::locker::{Locker, LockerRecord};
use locker::registry::{DestinationEntry, PermittedEntry};
use locker::sqos::{SQoSItem, SQoSType};

fn account(name: &str) -> AccountId {
    AccountId::new(name.as_bytes().to_vec())
}

fn s(text: &str) -> String {
    text.to_string()
}

#[test]
fn new_works() {
    let locker = Locker::new(account("alice"));
    assert_eq!(locker.owner(), Some(account("alice")));
    assert_eq!(locker.get_cross_chain_contract_address(), None);
    assert_eq!(locker.get_token_contract_address(), None);
    assert_eq!(locker.get(), vec![]);
    assert_eq!(locker.get_dest_contract_info(s("chain-b"), s("receive_token")), None);
}

#[test]
fn set_cross_chain_contract_works() {
    let mut locker = Locker::new(account("alice"));
    assert_eq!(locker.set_cross_chain_contract(&account("alice"), account("messenger")), Ok(()));
    assert_eq!(locker.get_cross_chain_contract_address(), Some(account("messenger")));
    assert_eq!(locker.get_token_contract_address(), None);
}

#[test]
fn set_token_contract_works() {
    let mut locker = Locker::new(account("alice"));
    assert_eq!(locker.set_token_contract(&account("alice"), account("token")), Ok(()));
    assert_eq!(locker.get_token_contract_address(), Some(account("token")));
    assert_eq!(locker.set_token_contract(&account("alice"), account("token2")), Ok(()));
    assert_eq!(locker.get_token_contract_address(), Some(account("token2")));
    assert_eq!(locker.get_cross_chain_contract_address(), None);
}

#[test]
fn only_the_owner_passes() {
    let locker = Locker::new(account("alice"));
    assert_eq!(locker.only_owner(&account("alice")), Ok(()));
    assert_eq!(locker.only_owner(&account("bob")), Err(Error::AuthorizationError));
    assert_eq!(locker.only_owner(&account("alic")), Err(Error::AuthorizationError));
    assert_eq!(locker.only_owner(&account("")), Err(Error::AuthorizationError));
}

#[test]
fn a_stranger_changes_nothing() {
    let alice = account("alice");
    let bob = account("bob");
    let mut locker = Locker::new(alice.clone());
    locker.set_cross_chain_contract(&alice, account("messenger")).unwrap();
    locker.set_token_contract(&alice, account("token")).unwrap();
    locker.register_dest_contract(&alice, s("chain-b"), s("receive_token"), s("0xABC"), s("mint")).unwrap();
    locker.register_permitted_sender(&alice, s("chain-a"), s("0xDEF"), s("receive_token")).unwrap();
    locker.insert(&alice, SQoSItem::new(SQoSType::Reveal, None)).unwrap();

    let refused = Err(Error::AuthorizationError);
    assert_eq!(locker.renounce_ownership(&bob), refused);
    assert_eq!(locker.transfer_ownership(&bob, bob.clone()), refused);
    assert_eq!(locker.set_cross_chain_contract(&bob, account("evil")), refused);
    assert_eq!(locker.set_token_contract(&bob, account("evil")), refused);
    assert_eq!(
        locker.register_dest_contract(&bob, s("chain-b"), s("receive_token"), s("0xBAD"), s("steal")),
        refused
    );
    assert_eq!(
        locker.register_permitted_sender(&bob, s("chain-x"), s("0xBAD"), s("receive_token")),
        refused
    );
    assert_eq!(locker.insert(&bob, SQoSItem::new(SQoSType::Challenge, None)), refused);
    assert_eq!(locker.remove(&bob, SQoSType::Reveal), refused);
    assert_eq!(locker.clear(&bob), refused);
    assert_eq!(locker.set(&bob, vec![]), refused);

    assert_eq!(locker.owner(), Some(alice));
    assert_eq!(locker.get_cross_chain_contract_address(), Some(account("messenger")));
    assert_eq!(locker.get_token_contract_address(), Some(account("token")));
    assert_eq!(
        locker.get_dest_contract_info(s("chain-b"), s("receive_token")),
        Some((s("0xABC"), s("mint")))
    );
    assert_eq!(locker.assert_permitted(&s("chain-a"), &s("0xDEF"), &s("receive_token")), Ok(()));
    assert_eq!(
        locker.assert_permitted(&s("chain-x"), &s("0xBAD"), &s("receive_token")),
        Err(Error::AuthorizationError)
    );
    assert_eq!(locker.get(), vec![SQoSItem::new(SQoSType::Reveal, None)]);
}

#[test]
fn ownership_moves_to_the_new_owner() {
    let alice = account("alice");
    let bob = account("bob");
    let mut locker = Locker::new(alice.clone());
    assert_eq!(locker.transfer_ownership(&alice, bob.clone()), Ok(()));
    assert_eq!(locker.owner(), Some(bob.clone()));
    assert_eq!(locker.clear(&alice), Err(Error::AuthorizationError));
    assert_eq!(locker.clear(&bob), Ok(()));
    assert_eq!(locker.transfer_ownership(&alice, alice.clone()), Err(Error::AuthorizationError));
    assert_eq!(locker.owner(), Some(bob));
}

#[test]
fn renounced_ownership_stays_renounced() {
    let alice = account("alice");
    let bob = account("bob");
    let mut locker = Locker::new(alice.clone());
    locker.insert(&alice, SQoSItem::new(SQoSType::Reveal, None)).unwrap();
    assert_eq!(locker.renounce_ownership(&alice), Ok(()));
    assert_eq!(locker.owner(), None);
    let refused = Err(Error::AuthorizationError);
    for caller in [&alice, &bob, &account("")] {
        assert_eq!(locker.only_owner(caller), refused);
        assert_eq!(locker.renounce_ownership(caller), refused);
        assert_eq!(locker.transfer_ownership(caller, alice.clone()), refused);
        assert_eq!(locker.set_cross_chain_contract(caller, account("m")), refused);
        assert_eq!(locker.set_token_contract(caller, account("t")), refused);
        assert_eq!(locker.register_dest_contract(caller, s("c"), s("a"), s("x"), s("y")), refused);
        assert_eq!(locker.register_permitted_sender(caller, s("c"), s("x"), s("a")), refused);
        assert_eq!(locker.insert(caller, SQoSItem::new(SQoSType::Priority, None)), refused);
        assert_eq!(locker.remove(caller, SQoSType::Reveal), refused);
        assert_eq!(locker.clear(caller), refused);
        assert_eq!(locker.set(caller, vec![]), refused);
    }
    assert_eq!(locker.owner(), None);
    assert_eq!(locker.get(), vec![SQoSItem::new(SQoSType::Reveal, None)]);
    assert_eq!(locker.get_dest_contract_info(s("c"), s("a")), None);
}

#[test]
fn insert_reveal_twice() {
    let alice = account("alice");
    let mut locker = Locker::new(alice.clone());
    assert_eq!(locker.insert(&alice, SQoSItem::new(SQoSType::Reveal, None)), Ok(()));
    let second = locker.insert(&alice, SQoSItem::new(SQoSType::Reveal, None));
    assert_eq!(second, Err(Error::DuplicateQoSType));
    assert_eq!(second.unwrap_err().kind(), ErrorKind::PolicyConflict);
    let policy = locker.get();
    assert_eq!(policy.iter().filter(|item| item.qos_type == SQoSType::Reveal).count(), 1);
    assert_eq!(policy, vec![SQoSItem::new(SQoSType::Reveal, None)]);
}

#[test]
fn the_owner_edits_the_policy() {
    let alice = account("alice");
    let mut locker = Locker::new(alice.clone());
    locker.insert(&alice, SQoSItem::new(SQoSType::Reveal, None)).unwrap();
    locker.insert(&alice, SQoSItem::new(SQoSType::Threshold, Some(vec![2]))).unwrap();
    assert_eq!(locker.remove(&alice, SQoSType::Reveal), Ok(()));
    assert_eq!(locker.remove(&alice, SQoSType::Reveal), Ok(()));
    assert_eq!(locker.get(), vec![SQoSItem::new(SQoSType::Threshold, Some(vec![2]))]);
    assert_eq!(
        locker.set(
            &alice,
            vec![SQoSItem::new(SQoSType::Reveal, None), SQoSItem::new(SQoSType::Reveal, None)]
        ),
        Err(Error::DuplicateQoSType)
    );
    assert_eq!(locker.get(), vec![SQoSItem::new(SQoSType::Threshold, Some(vec![2]))]);
    assert_eq!(locker.set(&alice, vec![SQoSItem::new(SQoSType::Identity, None)]), Ok(()));
    assert_eq!(locker.get(), vec![SQoSItem::new(SQoSType::Identity, None)]);
    assert_eq!(locker.clear(&alice), Ok(()));
    assert_eq!(locker.get(), vec![]);
}

#[test]
fn the_owner_registers_and_overwrites_routes() {
    let alice = account("alice");
    let mut locker = Locker::new(alice.clone());
    locker.register_dest_contract(&alice, s("chain-b"), s("receive_token"), s("0xABC"), s("mint")).unwrap();
    locker.register_dest_contract(&alice, s("chain-b"), s("receive_token"), s("0xDEF"), s("mint2")).unwrap();
    assert_eq!(
        locker.get_dest_contract_info(s("chain-b"), s("receive_token")),
        Some((s("0xDEF"), s("mint2")))
    );
    assert_eq!(locker.get_dest_contract_info(s("chain-b"), s("transfer_token")), None);
}

#[test]
fn every_error_has_its_kind() {
    assert_eq!(Error::AuthorizationError.kind(), ErrorKind::AuthorizationError);
    assert_eq!(Error::MethodNotRegistered.kind(), ErrorKind::NotRegistered);
    assert_eq!(Error::Erc20Error(Erc20Error::InsufficientBalance).kind(), ErrorKind::LedgerError);
    assert_eq!(Error::Erc20Error(Erc20Error::InsufficientAllowance).kind(), ErrorKind::LedgerError);
    assert_eq!(Error::Erc20Error(Erc20Error::NotOwner).kind(), ErrorKind::LedgerError);
    assert_eq!(Error::Erc20Error(Erc20Error::BalanceNotEnough).kind(), ErrorKind::LedgerError);
    assert_eq!(Error::CrossContractCallError.kind(), ErrorKind::CrossContractCallError);
    assert_eq!(Error::CodecError.kind(), ErrorKind::CodecError);
    assert_eq!(Error::DuplicateQoSType.kind(), ErrorKind::PolicyConflict);
    assert_eq!(Error::TokenContractNotSet.kind(), ErrorKind::ConfigurationError);
    assert_eq!(Error::CrossChainContractNotSet.kind(), ErrorKind::ConfigurationError);
}

fn route(chain: &str, action: &str, contract: &str, dest_action: &str) -> DestinationEntry {
    DestinationEntry { chain: s(chain), action: s(action), contract: s(contract), dest_action: s(dest_action) }
}

#[test]
fn a_record_holds_the_whole_state() {
    let alice = account("alice");
    let mut locker = Locker::new(alice.clone());
    locker.set_cross_chain_contract(&alice, account("messenger")).unwrap();
    locker.register_dest_contract(&alice, s("chain-b"), s("receive_token"), s("0xABC"), s("mint")).unwrap();
    locker.register_dest_contract(&alice, s("chain-c"), s("receive_token"), s("0xDEF"), s("mint")).unwrap();
    locker.register_dest_contract(&alice, s("chain-b"), s("receive_token"), s("0x123"), s("mint")).unwrap();
    locker.register_permitted_sender(&alice, s("chain-a"), s("0xDEF"), s("receive_token")).unwrap();
    locker.insert(&alice, SQoSItem::new(SQoSType::Reveal, None)).unwrap();
    let record = locker.record();
    assert_eq!(
        record,
        LockerRecord {
            owner: Some(account("alice")),
            cross_chain_contract: Some(account("messenger")),
            token_contract: None,
            destinations: vec![
                route("chain-b", "receive_token", "0x123", "mint"),
                route("chain-c", "receive_token", "0xDEF", "mint"),
            ],
            permitted: vec![PermittedEntry {
                chain: s("chain-a"),
                sender: s("0xDEF"),
                action: s("receive_token")
            }],
            sqos: vec![SQoSItem::new(SQoSType::Reveal, None)],
        }
    );
    let again = Locker::restore(record).unwrap();
    assert_eq!(again.record(), locker.record());
    assert_eq!(
        again.get_dest_contract_info(s("chain-b"), s("receive_token")),
        Some((s("0x123"), s("mint")))
    );
    assert_eq!(again.only_owner(&alice), Ok(()));
}

#[test]
fn a_record_without_an_owner_restores_a_locker_without_one() {
    let record = LockerRecord {
        owner: None,
        cross_chain_contract: None,
        token_contract: Some(account("token")),
        destinations: vec![],
        permitted: vec![],
        sqos: vec![],
    };
    let mut locker = Locker::restore(record).unwrap();
    assert_eq!(locker.owner(), None);
    assert_eq!(locker.clear(&account("alice")), Err(Error::AuthorizationError));
    assert_eq!(locker.get_token_contract_address(), Some(account("token")));
}

#[test]
fn a_record_with_a_kind_twice_is_refused() {
    let record = LockerRecord {
        owner: Some(account("alice")),
        cross_chain_contract: None,
        token_contract: None,
        destinations: vec![],
        permitted: vec![],
        sqos: vec![SQoSItem::new(SQoSType::Reveal, None), SQoSItem::new(SQoSType::Reveal, None)],
    };
    assert_eq!(Locker::restore(record).map(|locker| locker.get()), Err(Error::DuplicateQoSType));
}

#[test]
fn of_two_stored_routes_for_the_same_chain_and_action_the_earlier_counts() {
    let record = LockerRecord {
        owner: Some(account("alice")),
        cross_chain_contract: None,
        token_contract: None,
        destinations: vec![
            route("chain-b", "receive_token", "first", "mint"),
            route("chain-b", "receive_token", "second", "mint"),
        ],
        permitted: vec![],
        sqos: vec![],
    };
    let mut locker = Locker::restore(record).unwrap();
    assert_eq!(
        locker.get_dest_contract_info(s("chain-b"), s("receive_token")),
        Some((s("first"), s("mint")))
    );
    locker
        .register_dest_contract(&account("alice"), s("chain-b"), s("receive_token"), s("third"), s("mint"))
        .unwrap();
    assert_eq!(
        locker.get_dest_contract_info(s("chain-b"), s("receive_token")),
        Some((s("third"), s("mint")))
    );
}
