use cord_pallets::utils::{is_base_32, is_base_58};
use cord_pallets::mtype::{DispatchError, Error, Event, Pallet};
use cord_pallets::primitives::{AccountId32, H256};
use cord_pallets::weights::WeightInfo;

fn owner() -> AccountId32 {
    AccountId32([1u8; 32])
}

fn hash(b: u8) -> H256 {
    H256([b; 32])
}

#[test]
fn anchoring_stores_details_and_deposits_an_event() {
    let mut p = Pallet::new();
    let cid = b"bafybeigdyrzt5sfp7udm7hu76uh7y26nf3efuylqabf3oclgtqy55fbzdi".to_vec();
    assert_eq!(p.anchor(Some(owner()), hash(7), cid.clone(), 5), Ok(()));
    let d = p.mtypes(&hash(7)).unwrap();
    assert_eq!(d.owner, owner());
    assert_eq!(d.stream_cid, cid);
    assert_eq!(d.block_number, 5);
    assert!(p.contains_key(&hash(7)));
    assert!(!p.contains_key(&hash(8)));
    assert_eq!(p.events().clone(), vec![Event::MTypeAnchored(owner(), hash(7))]);
}

#[test]
fn anchoring_twice_is_refused() {
    let mut p = Pallet::new();
    let cid = b"QmYwAPJzv5CZsnA625s3Xf2nemtYgPpHdWEz79ojWnPbdG".to_vec();
    assert_eq!(p.anchor(Some(owner()), hash(1), cid.clone(), 1), Ok(()));
    assert_eq!(
        p.anchor(Some(AccountId32([2u8; 32])), hash(1), cid, 2),
        Err(DispatchError::Module(Error::MTypeAlreadyExists))
    );
    assert_eq!(p.mtypes(&hash(1)).unwrap().owner, owner());
    assert_eq!(p.mtypes(&hash(1)).unwrap().block_number, 1);
    assert_eq!(p.events().len(), 1);
}

#[test]
fn bad_origin_is_refused() {
    let mut p = Pallet::new();
    assert_eq!(p.anchor(None, hash(1), b"abc".to_vec(), 1), Err(DispatchError::BadOrigin));
    assert!(p.mtypes(&hash(1)).is_none());
    assert!(p.events().is_empty());
}

#[test]
fn cid_encoding_is_checked() {
    let mut p = Pallet::new();
    // '0' is in neither alphabet.
    assert_eq!(
        p.anchor(Some(owner()), hash(1), b"abc0".to_vec(), 1),
        Err(DispatchError::Module(Error::InvalidStreamCidEncoding))
    );
    // Upper case is base 58 only; '8' is base 58 only; both accepted.
    assert_eq!(p.anchor(Some(owner()), hash(2), b"ABC8".to_vec(), 1), Ok(()));
    // 'l' is base 32 only.
    assert_eq!(p.anchor(Some(owner()), hash(3), b"lll2".to_vec(), 1), Ok(()));
    // 'l' and 'I' mixed: in neither alphabet as a whole.
    assert_eq!(
        p.anchor(Some(owner()), hash(4), b"lI".to_vec(), 1),
        Err(DispatchError::Module(Error::InvalidStreamCidEncoding))
    );
    // Non-ASCII text is refused.
    assert_eq!(
        p.anchor(Some(owner()), hash(5), "é".as_bytes().to_vec(), 1),
        Err(DispatchError::Module(Error::InvalidStreamCidEncoding))
    );
    assert_eq!(p.events().len(), 2);
}

#[test]
fn base_alphabets() {
    assert!(is_base_32("abcdefghijklmnopqrstuvwxyz234567"));
    assert!(!is_base_32("1"));
    assert!(!is_base_32("A"));
    assert!(is_base_58("123456789ABCDEFGHJKLMNPQRSTUVWXYZabcdefghijkmnopqrstuvwxyz"));
    assert!(!is_base_58("0"));
    assert!(!is_base_58("O"));
    assert!(!is_base_58("I"));
    assert!(!is_base_58("l"));
    assert!(is_base_32(""));
}

#[test]
fn utility_weights() {
    assert_eq!(WeightInfo::batch(0), 0);
    assert_eq!(WeightInfo::batch(3), 3 * 66_627_000);
    assert_eq!(WeightInfo::batch(u32::MAX), 66_627_000 * u32::MAX as u64);
    assert_eq!(WeightInfo::as_derivative(), 62_902_000);
    assert_eq!(WeightInfo::batch_all(2), 134_168_000);
}
