use stellar_market::account::{Address, AddressKind, Flow, Transfer};

#[test]
fn account_is_written_with_the_tag_of_its_key() {
    let a = Address::account(
        0x0f0e0d0c0b0a09080706050403020100,
        0x1f1e1d1c1b1a19181716151413121110,
    );
    let bytes = a.encode();
    let mut expected = vec![0, 0, 0, 18, 0, 0, 0, 0, 0, 0, 0, 0];
    expected.extend(0u8..32);
    assert_eq!(bytes, expected);
    assert_eq!(Address::decode(&bytes), Some(a));
    assert_eq!(a.kind, AddressKind::Account);
}

#[test]
fn contract_is_written_without_it() {
    let c = Address::contract(1, u128::MAX);
    let bytes = c.encode();
    assert_eq!(bytes.len(), 40);
    assert_eq!(&bytes[..8], &[0, 0, 0, 18, 0, 0, 0, 1]);
    assert_eq!(bytes[8], 1);
    assert_eq!(&bytes[9..24], &[0u8; 15]);
    assert_eq!(&bytes[24..], &[255u8; 16]);
    assert_eq!(Address::decode(&bytes), Some(c));
    assert_ne!(Address::decode(&bytes), Some(Address::account(1, u128::MAX)));
}

#[test]
fn what_is_no_address_is_not_read_as_one() {
    let good = Address::account(7, 9).encode();
    assert!(Address::decode(&vec![]).is_none());
    assert!(Address::decode(&good[..43].to_vec()).is_none());
    let mut long = good.clone();
    long.push(0);
    assert!(Address::decode(&long).is_none());
    for at in 0..12 {
        let mut wrong = good.clone();
        wrong[at] ^= 4;
        assert!(Address::decode(&wrong).is_none(), "byte {}", at);
    }
    // An account of the length of a contract, and a contract of that of an account.
    let mut wrong = Address::contract(7, 9).encode();
    wrong[7] = 0;
    assert!(Address::decode(&wrong).is_none());
    let mut wrong = good.clone();
    wrong[7] = 1;
    assert!(Address::decode(&wrong).is_none());
    // A value of the host that is no address.
    let mut wrong = good.clone();
    wrong[3] = 14;
    assert!(Address::decode(&wrong).is_none());
}

#[test]
fn transfers_name_their_direction() {
    let asset = Address::contract(0, 7);
    let party = Address::account(0, 1);
    assert_eq!(
        Transfer::deposit(asset, party, 5),
        Transfer { asset, flow: Flow::Deposit, party, amount: 5 },
    );
    assert_eq!(
        Transfer::release(asset, party, 5),
        Transfer { asset, flow: Flow::Release, party, amount: 5 },
    );
}
