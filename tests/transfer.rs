use token_transfer::{
    assemble_signed, build, decode_transfer, derive_address, derive_public_key, encode_transfer,
    prepare_transfer, sign, Address, TransferError, Uint256, UnsignedTransaction,
};

const SEPOLIA: u64 = 11155111;

fn bytes(s: &str) -> Vec<u8> {
    hex::decode(s).unwrap()
}

fn address(s: &str) -> Address {
    let mut a = [0u8; 20];
    a.copy_from_slice(&bytes(s));
    Address { bytes: a }
}

fn key_of_ones() -> Vec<u8> {
    vec![1u8; 32]
}

fn sample_tx() -> UnsignedTransaction {
    let data = encode_transfer(&Address { bytes: [0xbb; 20] }, &[0x03, 0xe8]).unwrap();
    build(
        0,
        Address { bytes: [0xaa; 20] },
        Uint256::from_u128(1_000_000_000),
        Uint256::from_u128(100_000),
        data,
        SEPOLIA,
    )
    .unwrap()
}

#[test]
fn public_key_of_ones_key() {
    let p = derive_public_key(&key_of_ones()).unwrap();
    assert_eq!(
        p.bytes.to_vec(),
        bytes("041b84c5567b126440995d3ed5aaba0565d71e1834604819ff9c17f5e9d5dd078f70beaf8f588b541507fed6a642c5ab42dfdf8120a7f639de5122d47a69a8e8d1")
    );
}

#[test]
fn address_of_ones_key_is_golden() {
    let p = derive_public_key(&key_of_ones()).unwrap();
    assert_eq!(derive_address(&p), address("1a642f0e3c3af545e7acbd38b07251b3990914f1"));
}

#[test]
fn address_of_key_one() {
    let mut k = vec![0u8; 32];
    k[31] = 1;
    let p = derive_public_key(&k).unwrap();
    assert_eq!(derive_address(&p), address("7e5f4552091a69125d5dfcb7b8c2659029395bdf"));
}

#[test]
fn address_derivation_is_repeatable() {
    let k = key_of_ones();
    let a1 = derive_address(&derive_public_key(&k).unwrap());
    let a2 = derive_address(&derive_public_key(&k.clone()).unwrap());
    assert_eq!(a1, a2);
}

#[test]
fn malformed_key_is_invalid() {
    assert_eq!(derive_public_key(&[0u8; 33]), Err(TransferError::InvalidKey));
}

#[test]
fn zero_key_is_invalid() {
    assert_eq!(derive_public_key(&[0u8; 32]), Err(TransferError::InvalidKey));
}

#[test]
fn short_key_is_invalid() {
    assert_eq!(derive_public_key(&[1u8; 31]), Err(TransferError::InvalidKey));
}

#[test]
fn key_at_group_order_is_invalid() {
    let order = bytes("fffffffffffffffffffffffffffffffebaaedce6af48a03bbfd25e8cd0364141");
    assert_eq!(derive_public_key(&order), Err(TransferError::InvalidKey));
    let below = bytes("fffffffffffffffffffffffffffffffebaaedce6af48a03bbfd25e8cd0364140");
    assert!(derive_public_key(&below).is_ok());
}

#[test]
fn transfer_call_data_golden() {
    let d = encode_transfer(&address("bbbbbbbbbbbbbbbbbbbbbbbbbbbbbbbbbbbbbbbb"), &[0x03, 0xe8]).unwrap();
    assert_eq!(
        d,
        bytes("a9059cbb000000000000000000000000bbbbbbbbbbbbbbbbbbbbbbbbbbbbbbbbbbbbbbbb00000000000000000000000000000000000000000000000000000000000003e8")
    );
}

#[test]
fn call_data_round_trip() {
    let recipient = address("0123456789abcdef0123456789abcdef01234567");
    let amount = bytes("00ff00000000000000000000000000000000000000000000000000000000000001");
    let d = encode_transfer(&recipient, &amount).unwrap();
    let (r, a) = decode_transfer(&d).unwrap();
    assert_eq!(&d[0..4], &[0xa9, 0x05, 0x9c, 0xbb]);
    assert_eq!(r, recipient);
    assert_eq!(a.bytes.to_vec(), amount[1..].to_vec());
}

#[test]
fn call_data_length_is_fixed() {
    let recipient = Address { bytes: [7; 20] };
    assert_eq!(encode_transfer(&recipient, &[]).unwrap().len(), 68);
    assert_eq!(encode_transfer(&recipient, &[1]).unwrap().len(), 68);
    assert_eq!(encode_transfer(&recipient, &[0xff; 32]).unwrap().len(), 68);
}

#[test]
fn amount_zero_and_max_encode() {
    let recipient = Address { bytes: [7; 20] };
    let zero = encode_transfer(&recipient, &[0]).unwrap();
    assert_eq!(&zero[36..], &[0u8; 32]);
    let max = encode_transfer(&recipient, &[0xff; 32]).unwrap();
    assert_eq!(&max[36..], &[0xffu8; 32]);
}

#[test]
fn amount_two_to_256_overflows() {
    let mut amount = vec![0u8; 33];
    amount[0] = 1;
    assert_eq!(encode_transfer(&Address { bytes: [7; 20] }, &amount), Err(TransferError::AmountOverflow));
}

#[test]
fn wide_amount_with_zero_prefix_fits() {
    let mut amount = vec![0u8; 40];
    amount[39] = 5;
    let d = encode_transfer(&Address { bytes: [7; 20] }, &amount).unwrap();
    assert_eq!(d[67], 5);
    assert_eq!(&d[36..67], &[0u8; 31]);
}

#[test]
fn zero_recipient_is_accepted_by_encoder() {
    let d = encode_transfer(&Address { bytes: [0; 20] }, &[1]).unwrap();
    assert_eq!(&d[4..36], &[0u8; 32]);
}

#[test]
fn zero_contract_is_rejected_by_builder() {
    let data = encode_transfer(&Address { bytes: [0; 20] }, &[1]).unwrap();
    let r = build(0, Address { bytes: [0; 20] }, Uint256::from_u128(1), Uint256::from_u128(21000), data.clone(), SEPOLIA);
    assert_eq!(r, Err(TransferError::InvalidField));
    let ok = build(0, Address { bytes: [0xaa; 20] }, Uint256::from_u128(1), Uint256::from_u128(21000), data, SEPOLIA);
    assert!(ok.is_ok());
}

#[test]
fn zero_gas_limit_is_rejected() {
    let r = build(0, Address { bytes: [0xaa; 20] }, Uint256::from_u128(1), Uint256::zero(), vec![], SEPOLIA);
    assert_eq!(r, Err(TransferError::InvalidField));
}

#[test]
fn built_transaction_moves_no_native_value() {
    let tx = sample_tx();
    assert_eq!(tx.value, Uint256::zero());
    assert_eq!(tx.nonce, 0);
    assert_eq!(tx.chain_id, SEPOLIA);
}

#[test]
fn signing_preimage_golden() {
    let tx = sample_tx();
    assert_eq!(
        tx.encode_for_signing(),
        bytes("f86c80843b9aca00830186a094aaaaaaaaaaaaaaaaaaaaaaaaaaaaaaaaaaaaaaaa80b844a9059cbb000000000000000000000000bbbbbbbbbbbbbbbbbbbbbbbbbbbbbbbbbbbbbbbb00000000000000000000000000000000000000000000000000000000000003e883aa36a78080")
    );
    assert_eq!(
        tx.signing_hash().to_vec(),
        bytes("2e756e80be9cf41fe106082fc4b66afa3549ff76b3a7f01b9abe79455d52f80c")
    );
}

const SIGNED_RAW: &str = "f8ad80843b9aca00830186a094aaaaaaaaaaaaaaaaaaaaaaaaaaaaaaaaaaaaaaaa80b844a9059cbb000000000000000000000000bbbbbbbbbbbbbbbbbbbbbbbbbbbbbbbbbbbbbbbb00000000000000000000000000000000000000000000000000000000000003e88401546d71a0fb53ef30aab2806060ca82d405e6ee528b4bffdb0875b2bd69d19ea40b32bd09a05b2804bf4969bdea9477fc50bd2812cf3608bf79ac14b53cf695a874d07aaa2a";

#[test]
fn signed_transaction_golden() {
    let st = sign(&sample_tx(), &key_of_ones()).unwrap();
    assert_eq!(st.raw, bytes(SIGNED_RAW));
    assert_eq!(st.v, 22310257);
    assert_eq!(st.r.bytes.to_vec(), bytes("fb53ef30aab2806060ca82d405e6ee528b4bffdb0875b2bd69d19ea40b32bd09"));
    assert_eq!(st.s.bytes.to_vec(), bytes("5b2804bf4969bdea9477fc50bd2812cf3608bf79ac14b53cf695a874d07aaa2a"));
    assert_eq!(
        st.transaction_hash.to_vec(),
        bytes("85913fb369cfb1e399997eab2b8a55da64d3d7d3732224a7ac6021790a8ff3b2")
    );
}

#[test]
fn signing_is_deterministic() {
    let a = sign(&sample_tx(), &key_of_ones()).unwrap();
    let b = sign(&sample_tx(), &key_of_ones()).unwrap();
    assert_eq!(a, b);
}

#[test]
fn signing_with_invalid_key_fails() {
    assert_eq!(sign(&sample_tx(), &[0u8; 32]), Err(TransferError::SigningError));
}

#[test]
fn signature_recovers_sender_address() {
    let key = bytes("4c0883a69102937d6231471b5dbb6204fe5129617082792ae468d01a3f362318");
    let tx = sample_tx();
    let st = sign(&tx, &key).unwrap();
    let recovery_id = (st.v - 35 - 2 * SEPOLIA as u128) as i32;
    let mut rs = [0u8; 64];
    rs[..32].copy_from_slice(&st.r.bytes);
    rs[32..].copy_from_slice(&st.s.bytes);
    let id = secp256k1::ecdsa::RecoveryId::from_i32(recovery_id).unwrap();
    let sig = secp256k1::ecdsa::RecoverableSignature::from_compact(&rs, id).unwrap();
    let msg = secp256k1::Message::from_slice(&tx.signing_hash()).unwrap();
    let recovered = secp256k1::Secp256k1::verification_only().recover_ecdsa(&msg, &sig).unwrap();
    let p = token_transfer::PublicKey { bytes: recovered.serialize_uncompressed() };
    assert_eq!(derive_address(&p), derive_address(&derive_public_key(&key).unwrap()));
}

#[test]
fn assemble_sets_replay_protected_v() {
    let tx = sample_tx();
    let st = assemble_signed(&tx, [0u8; 32], &[0u8; 64], 1);
    assert_eq!(st.v, 1 + 2 * SEPOLIA as u128 + 35);
    assert_eq!(st.r, Uint256::zero());
}

#[test]
fn end_to_end_transfer_golden() {
    let (tx, st) = prepare_transfer(
        &key_of_ones(),
        Address { bytes: [0xaa; 20] },
        &Address { bytes: [0xbb; 20] },
        &[0x03, 0xe8],
        0,
        Uint256::from_u128(1_000_000_000),
        Uint256::from_u128(100_000),
        SEPOLIA,
    )
    .unwrap();
    assert_eq!(tx, sample_tx());
    assert_eq!(st.raw, bytes(SIGNED_RAW));
}

#[test]
fn end_to_end_error_order() {
    let over = vec![1u8; 33];
    let zero = Address { bytes: [0; 20] };
    let r = prepare_transfer(&[0u8; 33], zero, &zero, &over, 0, Uint256::zero(), Uint256::zero(), SEPOLIA);
    assert_eq!(r, Err(TransferError::InvalidKey));
    let r = prepare_transfer(&key_of_ones(), zero, &zero, &over, 0, Uint256::zero(), Uint256::zero(), SEPOLIA);
    assert_eq!(r, Err(TransferError::AmountOverflow));
    let r = prepare_transfer(&key_of_ones(), zero, &zero, &[1], 0, Uint256::zero(), Uint256::from_u128(1), SEPOLIA);
    assert_eq!(r, Err(TransferError::InvalidField));
}

#[test]
fn uint256_from_slice_and_minimal_bytes() {
    let u = Uint256::from_be_slice(&[0, 0, 1, 2]).unwrap();
    assert_eq!(u, Uint256::from_u128(0x0102));
    assert_eq!(u.to_minimal_bytes(), vec![1, 2]);
    assert_eq!(Uint256::zero().to_minimal_bytes(), Vec::<u8>::new());
    assert!(Uint256::zero().is_zero());
    assert!(!u.is_zero());
}

#[test]
fn decode_rejects_malformed_call_data() {
    let d = bytes("a9059cbb000000000000000000000000bbbbbbbbbbbbbbbbbbbbbbbbbbbbbbbbbbbbbbbb00000000000000000000000000000000000000000000000000000000000003e8");
    assert!(decode_transfer(&d).is_some());
    assert!(decode_transfer(&d[..67]).is_none());
    let mut bad_selector = d.clone();
    bad_selector[0] = 0;
    assert!(decode_transfer(&bad_selector).is_none());
    let mut bad_padding = d.clone();
    bad_padding[10] = 1;
    assert!(decode_transfer(&bad_padding).is_none());
}
