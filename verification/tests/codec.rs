use core_nft::account::Account;
use core_nft::blocks::WrappedNat;
use core_nft::codec::WrappedAccount;
use core_nft::value::Nat;

fn minicbor_u64(x: u64) -> Vec<u8> {
    let mut e = minicbor::Encoder::new(Vec::new());
    e.u64(x).unwrap();
    e.into_writer()
}

fn minicbor_account(owner: &[u8], sub: Option<&[u8]>) -> Vec<u8> {
    let mut e = minicbor::Encoder::new(Vec::new());
    e.array(2).unwrap();
    e.bytes(owner).unwrap();
    match sub {
        Some(s) => {
            e.bytes(s).unwrap();
        }
        None => {
            e.null().unwrap();
        }
    }
    e.into_writer()
}

#[test]
fn token_id_records_have_the_shortest_head() {
    assert_eq!(WrappedNat(Nat::from_u64(5)).to_bytes(), vec![0x05]);
    assert_eq!(WrappedNat(Nat::from_u64(23)).to_bytes(), vec![0x17]);
    assert_eq!(WrappedNat(Nat::from_u64(24)).to_bytes(), vec![0x18, 24]);
    assert_eq!(WrappedNat(Nat::from_u64(500)).to_bytes(), vec![0x19, 0x01, 0xf4]);
    assert_eq!(WrappedNat(Nat::from_u64(70_000)).to_bytes(), vec![0x1a, 0x00, 0x01, 0x11, 0x70]);
    assert_eq!(
        WrappedNat(Nat::from_u64(1 << 40)).into_bytes(),
        vec![0x1b, 0x00, 0x00, 0x01, 0x00, 0x00, 0x00, 0x00, 0x00]
    );
}

#[test]
fn token_id_records_match_minicbor() {
    for x in [0u64, 1, 23, 24, 255, 256, 65_535, 65_536, 4_294_967_295, 4_294_967_296, u64::MAX] {
        assert_eq!(WrappedNat(Nat::from_u64(x)).to_bytes(), minicbor_u64(x));
    }
}

#[test]
fn token_id_records_read_back() {
    for x in [0u64, 7, 24, 300, 100_000, 1 << 33, u64::MAX] {
        let bytes = WrappedNat(Nat::from_u64(x)).to_bytes();
        assert_eq!(WrappedNat::from_bytes(&bytes).0.to_u64(), Some(x));
        let (w, end) = WrappedNat::decode(&bytes, 0).unwrap();
        assert_eq!(w.0.to_u64(), Some(x));
        assert_eq!(end, bytes.len());
    }
}

#[test]
fn token_id_decoding_accepts_longer_heads_and_refuses_other_items() {
    let (w, end) = WrappedNat::decode(&[0x18, 0x05], 0).unwrap();
    assert_eq!(w.0.to_u64(), Some(5));
    assert_eq!(end, 2);
    assert!(WrappedNat::decode(&[], 0).is_none());
    assert!(WrappedNat::decode(&[0x19, 0x01], 0).is_none());
    assert!(WrappedNat::decode(&[0x40], 0).is_none());
    assert!(WrappedNat::decode(&[0x1c], 0).is_none());
}

#[test]
fn account_records_match_minicbor() {
    let owner = vec![1u8, 2, 3];
    let sub = vec![9u8; 32];
    let plain = WrappedAccount::from(Account { owner: owner.clone(), subaccount: None });
    assert_eq!(plain.to_bytes(), vec![0x82, 0x43, 1, 2, 3, 0xf6]);
    assert_eq!(plain.to_bytes(), minicbor_account(&owner, None));
    let with_sub = WrappedAccount::from(Account { owner: owner.clone(), subaccount: Some(sub.clone()) });
    let bytes = with_sub.into_bytes();
    assert_eq!(&bytes[..6], &[0x82, 0x43, 1, 2, 3, 0x58]);
    assert_eq!(bytes, minicbor_account(&owner, Some(&sub)));
}

#[test]
fn account_records_read_back() {
    let owner = vec![7u8; 29];
    for sub in [None, Some(vec![3u8; 32])] {
        let a = WrappedAccount::from(Account { owner: owner.clone(), subaccount: sub.clone() });
        let bytes = a.to_bytes();
        let back = WrappedAccount::from_bytes(&bytes);
        assert_eq!(back.0.owner, owner);
        assert_eq!(back.0.subaccount, sub);
        let (_, end) = WrappedAccount::decode(&bytes, 0).unwrap();
        assert_eq!(end, bytes.len());
    }
}

#[test]
fn account_decoding_refuses_malformed_records() {
    assert!(WrappedAccount::decode(&[], 0).is_none());
    assert!(WrappedAccount::decode(&[0x83, 0x41, 1, 0xf6, 0xf6], 0).is_none());
    assert!(WrappedAccount::decode(&[0x82, 0x41, 1], 0).is_none());
    assert!(WrappedAccount::decode(&[0x82, 0x01, 0xf6], 0).is_none());
    assert!(WrappedAccount::decode(&[0x82, 0x42, 1], 0).is_none());
}
