use cord_pallets::data::{decode_pair, Data, DecodeError, Input};
use cord_pallets::identity::{IdentityField, IdentityInfo, Username};
use cord_pallets::test_runtime::{
    account, account_from_u32, accounts, infoof_ten, infoof_twenty, new_test_ext, run_to_block,
    test_username_of, unfunded_accounts, Hook,
};

#[test]
fn identity_fields_repr_works() {
    // `SimpleIdentityField` sanity checks.
    assert_eq!(IdentityField::Display.bits(), 1 << 0);
    assert_eq!(IdentityField::Legal.bits(), 1 << 1);
    assert_eq!(IdentityField::Web.bits(), 1 << 2);
    assert_eq!(IdentityField::Email.bits(), 1 << 3);
    assert_eq!(IdentityField::Image.bits(), 1 << 4);

    let fields = IdentityField::Legal | IdentityField::Web;

    assert!(!fields.contains(IdentityField::Display));
    assert!(fields.contains(IdentityField::Legal));
    assert!(fields.contains(IdentityField::Web));
    assert!(!fields.contains(IdentityField::Email));
    assert!(!fields.contains(IdentityField::Image));

    // Ensure that the `u64` representation matches what we expect.
    assert_eq!(
        fields.bits(),
        0b00000000_00000000_00000000_00000000_00000000_00000000_00000000_00000110
    );
}

#[test]
fn trailing_zeros_decodes_into_default_data() {
    let encoded = Data::raw(b"Hello".to_vec()).unwrap().encode();
    assert!(decode_pair(&mut Input::new(encoded.clone())).is_err());
    let (a, b) = decode_pair(&mut Input::append_zeros(encoded)).unwrap();
    assert_eq!(a, Data::raw(b"Hello".to_vec()).unwrap());
    assert_eq!(b, Data::Empty);
}

#[test]
fn data_encodings_are_exact() {
    assert_eq!(Data::Empty.encode(), vec![0u8]);
    assert_eq!(Data::raw(b"ab".to_vec()).unwrap().encode(), vec![3u8, b'a', b'b']);
    assert_eq!(Data::raw(Vec::new()).unwrap().encode(), vec![1u8]);
    let mut blake = vec![34u8];
    blake.extend_from_slice(&[7u8; 32]);
    assert_eq!(Data::BlakeTwo256([7u8; 32]).encode(), blake);
    let mut sha3 = vec![37u8];
    sha3.extend_from_slice(&[9u8; 32]);
    assert_eq!(Data::ShaThree256([9u8; 32]).encode(), sha3);
    // A raw blob longer than 32 bytes is cut at 32 bytes.
    let long = Data::Raw(vec![5u8; 40]).encode();
    assert_eq!(long.len(), 33);
    assert_eq!(long[0], 33);
}

#[test]
fn data_round_trips() {
    let values = vec![
        Data::Empty,
        Data::raw(vec![]).unwrap(),
        Data::raw(b"The Right Ordinal Ten, Esq.".to_vec()).unwrap(),
        Data::raw(vec![0xffu8; 32]).unwrap(),
        Data::BlakeTwo256([1u8; 32]),
        Data::Sha256([2u8; 32]),
        Data::Keccak256([3u8; 32]),
        Data::ShaThree256([4u8; 32]),
    ];
    for v in values {
        let mut bytes = v.encode();
        bytes.push(0xaa);
        let mut input = Input::new(bytes);
        assert_eq!(Data::decode(&mut input), Ok(v.clone()));
        assert_eq!(input.read_byte(), Ok(0xaa));
        assert_eq!(input.read_byte(), Err(DecodeError::NotEnoughData));
    }
}

#[test]
fn data_decode_errors() {
    assert_eq!(Data::decode(&mut Input::new(vec![])), Err(DecodeError::NotEnoughData));
    assert_eq!(Data::decode(&mut Input::new(vec![38u8])), Err(DecodeError::InvalidLeadingByte));
    assert_eq!(Data::decode(&mut Input::new(vec![3u8, 1])), Err(DecodeError::NotEnoughData));
    assert_eq!(Data::decode(&mut Input::new(vec![34u8, 1, 2])), Err(DecodeError::NotEnoughData));
    // A zero-padded stream fills the missing bytes with zeros.
    assert_eq!(
        Data::decode(&mut Input::append_zeros(vec![3u8, 1])),
        Ok(Data::raw(vec![1u8, 0]).unwrap())
    );
    assert_eq!(Data::decode(&mut Input::append_zeros(vec![])), Ok(Data::Empty));
    assert!(Data::raw(vec![0u8; 33]).is_none());
}

#[test]
fn input_reads_then_pads() {
    let mut input = Input::append_zeros(vec![1, 2]);
    assert_eq!(input.read(3), Ok(vec![1, 2, 0]));
    assert_eq!(input.read_byte(), Ok(0));
    let mut plain = Input::new(vec![1, 2]);
    assert_eq!(plain.read(3), Err(DecodeError::NotEnoughData));
    assert_eq!(plain.read(2), Ok(vec![1, 2]));
}

#[test]
fn has_identity_follows_filled_fields() {
    let ten = infoof_ten();
    assert!(ten.has_identity(IdentityField::Display.bits()));
    assert!(ten.has_identity(IdentityField::Legal.bits()));
    assert!(ten.has_identity(IdentityField::Display.bits() | IdentityField::Legal.bits()));
    assert!(!ten.has_identity(
        IdentityField::Display.bits() | IdentityField::Legal.bits() | IdentityField::Web.bits()
    ));
    assert_eq!(ten.fields().bits(), 0b11);
    assert!(!ten.has_identity(1 << 5));
    let empty = IdentityInfo::default();
    assert_eq!(empty.fields().bits(), 0);
    assert!(empty.has_identity(0));
}

#[test]
fn additional_fields_are_bounded() {
    let mut info = infoof_ten();
    assert!(info.try_push_additional((Data::Empty, Data::Empty)).is_ok());
    assert!(info.try_push_additional((Data::Empty, Data::Empty)).is_ok());
    assert!(info.try_push_additional((Data::Empty, Data::Empty)).is_err());
    assert_eq!(info.additional.len(), 2);
}

#[test]
fn identities_of_ten_and_twenty() {
    let ten = infoof_ten();
    assert_eq!(ten.display, Data::raw(b"ten".to_vec()).unwrap());
    assert_eq!(ten.legal, Data::raw(b"The Right Ordinal Ten, Esq.".to_vec()).unwrap());
    assert_eq!(ten.web, Data::Empty);
    let twenty = infoof_twenty();
    assert_eq!(twenty.display, Data::raw(b"twenty".to_vec()).unwrap());
    assert_eq!(twenty.legal, Data::raw(b"The Right Ordinal Twenty, Esq.".to_vec()).unwrap());
    assert!(twenty.additional.is_empty());
}

#[test]
fn usernames_are_built_and_bounded() {
    let (username, full) = test_username_of(b"42".to_vec(), b"test".to_vec());
    assert_eq!(username, b"testusername42".to_vec());
    assert_eq!(full.to_vec(), b"testusername42@test".to_vec());
    assert_eq!(full.len(), 19);
    assert!(Username::try_from(vec![b'a'; 32]).is_some());
    assert!(Username::try_from(vec![b'a'; 33]).is_none());
}

#[test]
fn accounts_are_filled_bytes() {
    assert_eq!(account(10).0, [10u8; 32]);
    let [one, _, three, _, ten, _, _, forty] = accounts();
    assert_eq!(one.0, [1u8; 32]);
    assert_eq!(three.0, [3u8; 32]);
    assert_eq!(ten.0, [10u8; 32]);
    assert_eq!(forty.0, [40u8; 32]);
    let [a, b] = unfunded_accounts();
    assert_eq!(a.0, [100u8; 32]);
    assert_eq!(b.0, [101u8; 32]);
    let x = account_from_u32(0x0403_0201);
    for i in 0..32 {
        assert_eq!(x.0[i], (i % 4 + 1) as u8);
    }
    assert_eq!(account_from_u32(21).0[4], 21);
    assert_eq!(account_from_u32(21).0[5], 0);
}

#[test]
fn running_to_a_block_runs_its_hooks() {
    let mut system = new_test_ext();
    assert_eq!(system.block_number(), 1);
    run_to_block(&mut system, 3);
    assert_eq!(system.block_number(), 3);
    assert_eq!(
        system.hooks().clone(),
        vec![
            Hook::IdentityFinalize(1),
            Hook::SystemFinalize(1),
            Hook::SystemInitialize(2),
            Hook::IdentityInitialize(2),
            Hook::IdentityFinalize(2),
            Hook::SystemFinalize(2),
            Hook::SystemInitialize(3),
            Hook::IdentityInitialize(3),
        ]
    );
    // A runtime already past the block stays where it is.
    run_to_block(&mut system, 2);
    assert_eq!(system.block_number(), 3);
    assert_eq!(system.hooks().len(), 8);
    system.set_block_number(100);
    run_to_block(&mut system, 101);
    assert_eq!(system.hooks().len(), 12);
}

#[test]
fn running_in_steps_runs_the_same_hooks() {
    let mut stepwise = new_test_ext();
    run_to_block(&mut stepwise, 2);
    run_to_block(&mut stepwise, 4);
    let mut at_once = new_test_ext();
    run_to_block(&mut at_once, 4);
    assert_eq!(stepwise.block_number(), at_once.block_number());
    assert_eq!(stepwise.hooks().clone(), at_once.hooks().clone());
    assert_eq!(at_once.hooks().len(), 4 * 3);
}

#[test]
fn identity_field_union_holds_exactly_both() {
    let all = [
        IdentityField::Display,
        IdentityField::Legal,
        IdentityField::Web,
        IdentityField::Email,
        IdentityField::Image,
    ];
    for a in all {
        for b in all {
            let u = a | b;
            for c in all {
                assert_eq!(u.contains(c), c == a || c == b);
            }
        }
    }
}
