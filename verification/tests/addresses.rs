use parti_votes::address::Address;
use parti_votes::address::AddressType;
use parti_votes::sorted_vec_map::KeyOrder;
use parti_votes::sorted_vec_map::MapKey;

fn with_byte(kind: AddressType, index: usize, value: u8) -> Address {
    let mut identifier = [0u8; 20];
    identifier[index] = value;
    Address { address_type: kind, identifier }
}

#[test]
fn rank_bytes_follow_the_order_of_kinds() {
    assert_eq!(AddressType::Account.rank_byte(), 0);
    assert_eq!(AddressType::SystemContract.rank_byte(), 1);
    assert_eq!(AddressType::PublicContract.rank_byte(), 2);
    assert_eq!(AddressType::ZkContract.rank_byte(), 3);
    assert_eq!(AddressType::GovContract.rank_byte(), 4);
}

#[test]
fn the_kind_decides_first() {
    let account = with_byte(AddressType::Account, 0, 255);
    let contract = with_byte(AddressType::PublicContract, 0, 0);
    assert_eq!(account.order(&contract), KeyOrder::Before);
    assert_eq!(contract.order(&account), KeyOrder::After);
}

#[test]
fn the_first_differing_byte_decides() {
    let a = with_byte(AddressType::Account, 3, 1);
    let mut b = with_byte(AddressType::Account, 3, 2);
    assert_eq!(a.order(&b), KeyOrder::Before);
    assert_eq!(b.order(&a), KeyOrder::After);
    b.identifier[3] = 1;
    b.identifier[19] = 1;
    assert_eq!(a.order(&b), KeyOrder::Before);
    let mut c = a;
    c.identifier[2] = 1;
    c.identifier[3] = 0;
    assert_eq!(c.order(&a), KeyOrder::After);
    assert_eq!(a.order(&c), KeyOrder::Before);
}

#[test]
fn equal_addresses_are_the_same() {
    let a = with_byte(AddressType::ZkContract, 19, 7);
    let b = with_byte(AddressType::ZkContract, 19, 7);
    assert_eq!(a.order(&b), KeyOrder::Same);
    assert!(a.same(&b));
    assert!(!a.same(&with_byte(AddressType::ZkContract, 19, 8)));
    assert!(!a.same(&with_byte(AddressType::GovContract, 19, 7)));
    assert!(!a.same(&with_byte(AddressType::ZkContract, 0, 7)));
}

#[test]
fn the_order_is_a_strict_total_order_on_samples() {
    let kinds = [
        AddressType::Account,
        AddressType::SystemContract,
        AddressType::PublicContract,
        AddressType::ZkContract,
        AddressType::GovContract,
    ];
    let mut samples = Vec::new();
    for kind in kinds {
        samples.push(with_byte(kind, 0, 0));
        samples.push(with_byte(kind, 0, 1));
        samples.push(with_byte(kind, 10, 200));
        samples.push(with_byte(kind, 19, 255));
    }
    for a in &samples {
        assert_eq!(a.order(a), KeyOrder::Same);
        for b in &samples {
            let ab = a.order(b);
            let ba = b.order(a);
            match ab {
                KeyOrder::Before => assert_eq!(ba, KeyOrder::After),
                KeyOrder::After => assert_eq!(ba, KeyOrder::Before),
                KeyOrder::Same => {
                    assert_eq!(ba, KeyOrder::Same);
                    assert_eq!(a, b);
                }
            }
            for c in &samples {
                if ab == KeyOrder::Before && b.order(c) == KeyOrder::Before {
                    assert_eq!(a.order(c), KeyOrder::Before);
                }
            }
        }
    }
}
