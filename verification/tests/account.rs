use coretime_arcade::account::{same_bytes, AccountId, Transfer};
use coretime_arcade::account_map::AccountMap;

#[test]
fn accounts_are_equal_by_their_bytes() {
    let a = AccountId::from([9u8; 32]);
    let b = AccountId { bytes: [9u8; 32] };
    let mut other = [9u8; 32];
    other[31] = 8;
    assert_eq!(a, b);
    assert_ne!(a, AccountId::from(other));
    assert!(same_bytes(&[3u8; 32], &[3u8; 32]));
    assert!(!same_bytes(&[3u8; 32], &other));
    let mut first = [0u8; 32];
    first[0] = 1;
    assert!(!same_bytes(&first, &[0u8; 32]));
}

#[test]
fn zero_account_is_all_zero_bytes() {
    assert_eq!(AccountId::zero(), AccountId::from([0u8; 32]));
    assert!(AccountId::zero().is_zero());
    let mut last = [0u8; 32];
    last[31] = 1;
    assert!(!AccountId::from(last).is_zero());
    assert!(!AccountId::from([1u8; 32]).is_zero());
}

#[test]
fn transfer_is_a_plain_pair() {
    let t = Transfer { to: AccountId::from([1u8; 32]), amount: 5 };
    assert_eq!(t, Transfer { to: AccountId::from([1u8; 32]), amount: 5 });
    assert_ne!(t, Transfer { to: AccountId::from([1u8; 32]), amount: 6 });
}

#[test]
fn account_map_keeps_the_last_value_of_each_account() {
    let a = AccountId::from([1u8; 32]);
    let b = AccountId::from([2u8; 32]);
    let mut map: AccountMap<u64> = AccountMap::new();
    assert_eq!(map.get(&a), None);
    map.insert(a, 10);
    map.insert(b, 20);
    assert_eq!(map.get(&a), Some(10));
    assert_eq!(map.get(&b), Some(20));
    map.insert(a, 11);
    assert_eq!(map.get(&a), Some(11));
    assert_eq!(map.get(&b), Some(20));
    assert_eq!(map.get(&AccountId::from([3u8; 32])), None);
}

#[test]
fn account_map_from_entries_refuses_repeated_accounts() {
    let a = AccountId::from([1u8; 32]);
    let b = AccountId::from([2u8; 32]);
    let map = AccountMap::from_entries(vec![(a, 1u8), (b, 2u8)]).expect("accounts are distinct");
    assert_eq!(map.get(&a), Some(1));
    assert_eq!(map.get(&b), Some(2));
    assert_eq!(map.into_entries(), vec![(a, 1u8), (b, 2u8)]);
    assert!(AccountMap::from_entries(vec![(a, 1u8), (b, 2u8), (a, 3u8)]).is_none());
    assert!(AccountMap::<u8>::from_entries(Vec::new()).is_some());
    let mut grown: AccountMap<u8> = AccountMap::new();
    grown.insert(b, 5);
    grown.insert(a, 6);
    grown.insert(b, 7);
    assert_eq!(grown.into_entries(), vec![(b, 7u8), (a, 6u8)]);
}
