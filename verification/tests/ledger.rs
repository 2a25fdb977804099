use universal_nft::ledger::Ledger;

#[test]
fn new_ledger_is_empty() {
    let ledger = Ledger::new();
    assert!(ledger.data(&[0u8; 32]).is_empty());
    assert!(ledger.issued().is_empty());
    assert!(ledger.events().is_empty());
}

#[test]
fn allocate_writes_only_where_nothing_is() {
    let mut ledger = Ledger::new();
    assert!(ledger.allocate([1u8; 32], vec![1, 2, 3]));
    assert_eq!(ledger.data(&[1u8; 32]), vec![1, 2, 3]);
    assert!(!ledger.allocate([1u8; 32], vec![4]));
    assert_eq!(ledger.data(&[1u8; 32]), vec![1, 2, 3]);
    assert!(ledger.allocate([2u8; 32], vec![4]));
    assert_eq!(ledger.data(&[2u8; 32]), vec![4]);
    assert_eq!(ledger.data(&[1u8; 32]), vec![1, 2, 3]);
    assert!(ledger.data(&[3u8; 32]).is_empty());
}

#[test]
fn allocate_refuses_an_empty_record() {
    let mut ledger = Ledger::new();
    assert!(!ledger.allocate([1u8; 32], Vec::new()));
    assert!(ledger.data(&[1u8; 32]).is_empty());
    assert!(ledger.allocate([1u8; 32], vec![0]));
}

#[test]
fn addresses_differ_in_any_byte() {
    let mut ledger = Ledger::new();
    let mut near = [1u8; 32];
    near[31] = 2;
    assert!(ledger.allocate([1u8; 32], vec![1]));
    assert!(ledger.allocate(near, vec![2]));
    assert_eq!(ledger.data(&[1u8; 32]), vec![1]);
    assert_eq!(ledger.data(&near), vec![2]);
}
