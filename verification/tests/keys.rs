use minotari_multisig::crypto::{
    decrypt_data, encryption_key_of_public_key, encryption_key_of_secret, spending_key_of_secret, verify_mask,
};
use minotari_multisig::error::ByteArrayError;
use minotari_multisig::hex::{commitment_from_hex, to_array};
use minotari_multisig::key_map::KeyMap;
use minotari_multisig::keys::{same_bytes, PrivateKey, RistrettoPublicKey};
use minotari_multisig::list::copied;
use minotari_multisig::text::{decimal_text, enclosed, joined};
use minotari_multisig::types::{AggregatedSignature, MemberMultisigSignature, Signature, TariKeyId};
use tari_common_types::types::{
    CommitmentFactory, CommsDHKE, CompressedCommitment, CompressedPublicKey, PrivateKey as TariPrivateKey,
    UncompressedPublicKey,
};
use tari_crypto::commitment::HomomorphicCommitmentFactory;
use tari_crypto::keys::PublicKey;
use tari_transaction_components::transaction_components::memo_field::{MemoField, TxType};
use tari_transaction_components::transaction_components::one_sided::{
    public_key_to_output_encryption_key, shared_secret_to_output_encryption_key,
    shared_secret_to_output_spending_key,
};
use tari_transaction_components::transaction_components::EncryptedData;
use tari_transaction_components::MicroMinotari;
use tari_utilities::ByteArray;

const NO_POINT: [u8; 32] = [0xff; 32];

fn scalar(n: u8) -> [u8; 32] {
    let mut bytes = [0u8; 32];
    bytes[0] = n;
    bytes
}

fn tari_scalar(n: u8) -> TariPrivateKey {
    TariPrivateKey::from_canonical_bytes(&scalar(n)).unwrap()
}

fn key(n: u8) -> [u8; 32] {
    UncompressedPublicKey::from_secret_key(&tari_scalar(n)).as_bytes().try_into().unwrap()
}

fn private(n: u8) -> PrivateKey {
    PrivateKey::from_canonical_bytes(&scalar(n)).unwrap()
}

fn commitment(mask: u8, value: u64) -> [u8; 32] {
    CommitmentFactory::default().commit_value(&tari_scalar(mask), value).as_bytes().try_into().unwrap()
}

#[test]
fn decimal_text_writes_digits() {
    assert_eq!(decimal_text(0), "0");
    assert_eq!(decimal_text(9), "9");
    assert_eq!(decimal_text(1_234_567_890), "1234567890");
    assert_eq!(decimal_text(u64::MAX), "18446744073709551615");
}

#[test]
fn texts_are_joined_in_order() {
    assert_eq!(joined("ab", "cd"), "abcd");
    assert_eq!(enclosed("(", "x", ")"), "(x)");
}

#[test]
fn lists_are_copied() {
    assert_eq!(copied(&vec![3u8, 1, 2]), vec![3u8, 1, 2]);
}

#[test]
fn bytes_are_compared() {
    assert!(same_bytes(&key(1), &key(1)));
    let mut other = key(1);
    other[31] ^= 1;
    assert!(!same_bytes(&key(1), &other));
}

#[test]
fn commitments_are_read_from_hex() {
    let text = "00ff".repeat(16);
    let bytes = commitment_from_hex(&text).unwrap();
    assert_eq!(bytes[0], 0);
    assert_eq!(bytes[31], 0xff);
    assert_eq!(commitment_from_hex(&format!(" 0x{} ", text)).unwrap(), bytes);
}

#[test]
fn commitments_that_are_no_hex_are_refused() {
    assert_eq!(commitment_from_hex("abc").unwrap_err(), "Hex string lengths must be a multiple of 2");
    assert_eq!(
        commitment_from_hex(&"zz".repeat(32)).unwrap_err(),
        "Only hexadecimal characters (0-9,a-f) are permitted"
    );
    assert_eq!(commitment_from_hex("00ff").unwrap_err(), "Invalid hex representation for the target type");
}

#[test]
fn arrays_hold_their_bytes() {
    let bytes: Vec<u8> = (0u8..32).collect();
    assert_eq!(to_array(&bytes).to_vec(), bytes);
}

#[test]
fn points_are_decoded_and_added() {
    let one = RistrettoPublicKey::from_compressed(&key(1)).unwrap();
    let two = RistrettoPublicKey::from_compressed(&key(2)).unwrap();
    assert_eq!(one.to_compressed(), key(1));
    assert_eq!(one.plus(&two).to_compressed(), key(3));
    assert_eq!(two.plus(&one).to_compressed(), key(3));
    let identity = RistrettoPublicKey::identity();
    assert_eq!(identity.to_compressed(), [0u8; 32]);
    assert_eq!(identity.plus(&two).to_compressed(), key(2));
}

#[test]
fn bytes_that_are_no_point_are_refused() {
    match RistrettoPublicKey::from_compressed(&NO_POINT) {
        Err(e) => {
            assert!(matches!(&e, ByteArrayError::ConversionError { reason } if reason == "Invalid compressed Ristretto point"));
            assert_eq!(
                e.message(),
                "Could not create a ByteArray when converting from a different format: `Invalid compressed Ristretto point'"
            );
        },
        Ok(_) => panic!("no point"),
    }
}

#[test]
fn scalars_are_added_modulo_the_group_order() {
    assert_eq!(private(1).plus(&private(2)).to_bytes(), scalar(3));
    // The group order less one.
    let largest: [u8; 32] = [
        0xec, 0xd3, 0xf5, 0x5c, 0x1a, 0x63, 0x12, 0x58, 0xd6, 0x9c, 0xf7, 0xa2, 0xde, 0xf9, 0xde, 0x14, 0, 0, 0, 0, 0,
        0, 0, 0, 0, 0, 0, 0, 0, 0, 0, 0x10,
    ];
    let minus_one = PrivateKey::from_canonical_bytes(&largest).unwrap();
    assert_eq!(minus_one.plus(&private(3)).to_bytes(), scalar(2));
    assert_eq!(minus_one.plus(&private(1)).to_bytes(), [0u8; 32]);
    assert!(minus_one.plus(&private(1)).same(&PrivateKey::zero()));
    assert!(!minus_one.same(&PrivateKey::zero()));
}

#[test]
fn bytes_that_are_no_scalar_are_refused() {
    assert!(matches!(PrivateKey::from_canonical_bytes(&[1, 2]), Err(ByteArrayError::IncorrectLength)));
    let error = match PrivateKey::from_canonical_bytes(&[0xff; 32]) {
        Err(e) => e,
        Ok(_) => panic!("no scalar"),
    };
    assert!(
        matches!(error, ByteArrayError::ConversionError { reason } if reason == "Invalid canonical scalar byte array")
    );
    assert_eq!(
        ByteArrayError::IncorrectLength.message(),
        "The input data was the incorrect length to perform the desired conversion"
    );
}

#[test]
fn output_keys_are_those_of_the_wallet() {
    let point = RistrettoPublicKey::from_compressed(&key(5)).unwrap();
    let secret = CommsDHKE::from_canonical_bytes(&key(5)).unwrap();
    let expected = public_key_to_output_encryption_key(&CompressedPublicKey::new(&key(5))).unwrap();
    assert_eq!(encryption_key_of_public_key(&point).to_bytes().to_vec(), expected.as_bytes().to_vec());
    let expected = shared_secret_to_output_encryption_key(&secret).unwrap();
    assert_eq!(encryption_key_of_secret(&point).to_bytes().to_vec(), expected.as_bytes().to_vec());
    let expected = shared_secret_to_output_spending_key(&secret).unwrap();
    assert_eq!(spending_key_of_secret(&point).to_bytes().to_vec(), expected.as_bytes().to_vec());
    assert_ne!(spending_key_of_secret(&point).to_bytes(), encryption_key_of_secret(&point).to_bytes());
}

#[test]
fn encrypted_data_is_opened_with_its_key_only() {
    let bytes = commitment(7, 1000);
    let memo = MemoField::new_open(vec![1, 2, 3], TxType::PaymentToOther).unwrap();
    let data = EncryptedData::encrypt_data(
        &tari_scalar(9),
        &CompressedCommitment::from_canonical_bytes(&bytes).unwrap(),
        MicroMinotari::from(1000),
        &tari_scalar(7),
        memo.clone(),
    )
    .unwrap();
    let secrets = decrypt_data(&private(9), &bytes, data.as_bytes()).unwrap();
    assert_eq!(secrets.value, 1000);
    assert_eq!(secrets.mask.to_bytes(), scalar(7));
    assert_eq!(secrets.payment_id, serde_json::to_vec(&memo).unwrap());
    assert!(decrypt_data(&private(8), &bytes, data.as_bytes()).is_none());
    assert!(decrypt_data(&private(9), &commitment(7, 1001), data.as_bytes()).is_none());
    assert!(decrypt_data(&private(9), &bytes, &[1, 2, 3]).is_none());
}

#[test]
fn masks_are_verified() {
    assert_eq!(verify_mask(&commitment(7, 1000), &private(7), 1000), Ok(true));
    assert_eq!(verify_mask(&commitment(7, 1000), &private(7), 1001), Ok(false));
    assert_eq!(verify_mask(&commitment(7, 1000), &private(6), 1000), Ok(false));
    assert!(verify_mask(&NO_POINT, &private(7), 1000).is_err());
}

#[test]
fn key_maps_hold_the_last_value_of_a_key() {
    let map = KeyMap::new().insert(key(1), 10u8).insert(key(2), 20u8).insert(key(1), 30u8);
    assert_eq!(map.get(&key(1)), Some(&30));
    assert_eq!(map.get(&key(2)), Some(&20));
    assert_eq!(map.get(&key(3)), None);
    let second = map.duplicate().insert(key(3), 40u8);
    assert_eq!(second.get(&key(1)), Some(&30));
    assert_eq!(second.get(&key(3)), Some(&40));
    assert_eq!(map.get(&key(3)), None);
}

#[test]
fn defaults_are_blank() {
    let aggregated = AggregatedSignature::default();
    assert!(aggregated.aggregated_signature.blank());
    assert!(matches!(aggregated.aggregated_nonce, TariKeyId::Zero));
    assert!(aggregated.public_keys.is_empty());
    let member = MemberMultisigSignature::default();
    assert_eq!(member.output_index, 0);
    assert!(member.script_signature.blank() && member.metadata_signature.blank());
    assert!(member.script_offset.same(&PrivateKey::zero()));
    let made = Signature { public_nonce: key(1), signature: private(1) };
    assert!(!made.blank());
}
