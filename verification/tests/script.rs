use minotari_multisig::error::{CommandError, OutputManagerError};
use minotari_multisig::key_map::KeyMap;
use minotari_multisig::keys::PrivateKey;
use minotari_multisig::script::{
    collect_script_signatures, derive_multisig_recovery_key_id, find_multisig_components,
    get_multi_sig_script_components, get_multisig_script_key, is_multisig_utxo, multisig_script_key_found,
    push_pubkey_script, sum_public_keys,
    sum_public_keys_to_encryption_key, Opcode, TariScript,
};
use minotari_multisig::types::{Signature, TariKeyId};
use tari_common_types::types::{CompressedPublicKey, PrivateKey as TariPrivateKey, UncompressedPublicKey};
use tari_crypto::keys::PublicKey;
use tari_transaction_components::transaction_components::one_sided::public_key_to_output_encryption_key;
use tari_utilities::ByteArray;

const NO_POINT: [u8; 32] = [0xff; 32];

fn scalar(n: u8) -> [u8; 32] {
    let mut bytes = [0u8; 32];
    bytes[0] = n;
    bytes
}

fn key(n: u8) -> [u8; 32] {
    let secret = TariPrivateKey::from_canonical_bytes(&scalar(n)).unwrap();
    UncompressedPublicKey::from_secret_key(&secret).as_bytes().try_into().unwrap()
}

fn signature(n: u8) -> Signature {
    Signature { public_nonce: key(n), signature: PrivateKey::from_canonical_bytes(&scalar(n)).unwrap() }
}

fn multisig(m: u8, keys: Vec<[u8; 32]>) -> TariScript {
    let n = keys.len() as u8;
    TariScript {
        script: vec![
            Opcode::Other(vec![0x73]),
            Opcode::CheckMultiSigVerifyAggregatePubKey(m, n, keys, [7; 32]),
            Opcode::CheckMultiSigVerifyAggregatePubKey(9, 1, vec![key(9)], [8; 32]),
        ],
    }
}

#[test]
fn multisig_scripts_are_told_from_others() {
    assert!(is_multisig_utxo(&multisig(2, vec![key(1), key(2)])));
    assert!(!is_multisig_utxo(&push_pubkey_script(&key(1))));
    assert!(!is_multisig_utxo(&TariScript { script: vec![] }));
}

#[test]
fn the_first_multisig_instruction_gives_the_components() {
    let (keys, m) = get_multi_sig_script_components(&multisig(2, vec![key(1), key(2), key(3)]), 5).unwrap();
    assert_eq!(keys, vec![key(1), key(2), key(3)]);
    assert_eq!(m, 2);
    assert!(find_multisig_components(&push_pubkey_script(&key(1))).is_none());
}

#[test]
fn a_script_without_multisig_has_no_components() {
    let error = get_multi_sig_script_components(&push_pubkey_script(&key(1)), 4711).unwrap_err();
    assert!(matches!(error, OutputManagerError::ServiceError(words) if words == "Invalid script (TxId: 4711)"));
}

#[test]
fn pubkey_scripts_hold_one_key() {
    let script = push_pubkey_script(&key(4)).script;
    assert_eq!(script.len(), 1);
    assert!(matches!(script[0], Opcode::PushPubKey(k) if k == key(4)));
}

#[test]
fn public_keys_are_added_up() {
    let sum = match sum_public_keys(&[key(1), key(2), key(4)]) {
        Ok(sum) => sum,
        Err(_) => panic!("all are points"),
    };
    assert_eq!(sum.to_compressed(), key(7));
    let empty = match sum_public_keys(&[]) {
        Ok(sum) => sum,
        Err(_) => panic!("no key is no error"),
    };
    assert_eq!(empty.to_compressed(), [0u8; 32]);
    assert!(matches!(sum_public_keys(&[key(1), NO_POINT]), Err(CommandError::ByteArrayError(_))));
}

#[test]
fn the_encryption_key_is_that_of_the_sum() {
    let expected = public_key_to_output_encryption_key(&CompressedPublicKey::new(&key(3))).unwrap();
    let found = match sum_public_keys_to_encryption_key(&[key(1), key(2)]) {
        Ok(found) => found,
        Err(_) => panic!("all are points"),
    };
    assert_eq!(found.to_bytes().to_vec(), expected.as_bytes().to_vec());
    assert!(matches!(sum_public_keys_to_encryption_key(&[NO_POINT]), Err(CommandError::ByteArrayError(_))));
    let recovery = match derive_multisig_recovery_key_id(&[key(1), key(2)]) {
        Ok(recovery) => recovery,
        Err(_) => panic!("all are points"),
    };
    assert_eq!(recovery.to_bytes(), found.to_bytes());
}

#[test]
fn a_recovery_key_needs_points() {
    match derive_multisig_recovery_key_id(&[key(1), NO_POINT]) {
        Err(CommandError::General(words)) => assert_eq!(
            words,
            "Failed to sum public keys: Could not create a ByteArray when converting from a different format: \
             `Invalid compressed Ristretto point'"
        ),
        _ => panic!("one is no point"),
    }
}

#[test]
fn signatures_are_put_in_the_order_of_the_script() {
    let shares = KeyMap::new().insert(key(3), signature(13)).insert(key(1), signature(11)).insert(key(8), signature(18));
    let (signatures, sum) = match collect_script_signatures(&[key(1), key(2), key(3)], &shares, &key(3)) {
        Ok(collected) => collected,
        Err(_) => panic!("all are points"),
    };
    assert_eq!(signatures.len(), 2);
    assert_eq!(signatures[0].public_nonce, key(11));
    assert_eq!(signatures[1].public_nonce, key(13));
    // The own key is not added.
    assert_eq!(sum.to_compressed(), key(1));
}

#[test]
fn keys_that_did_not_sign_need_not_be_points() {
    let shares = KeyMap::new().insert(key(1), signature(11)).insert(NO_POINT, signature(12));
    assert!(collect_script_signatures(&[key(1), [0xfe; 32]], &shares, &key(2)).is_ok());
    assert!(matches!(
        collect_script_signatures(&[key(1), NO_POINT], &shares, &key(2)),
        Err(CommandError::ByteArrayError(_))
    ));
    // Nor need the own key be one.
    assert!(collect_script_signatures(&[key(1), NO_POINT], &shares, &NO_POINT).is_ok());
}

#[test]
fn the_script_key_of_a_session_is_named_by_its_digest() {
    // The digest of "abc" starts with ba 78 16 bf 8f 01 cf ea.
    match get_multisig_script_key("abc") {
        TariKeyId::Managed { branch, index } => {
            assert_eq!(branch, "sender offset");
            assert_eq!(index, u64::from_le_bytes([0xba, 0x78, 0x16, 0xbf, 0x8f, 0x01, 0xcf, 0xea]));
        },
        _ => panic!("a managed key"),
    }
}

fn total(keys: &[[u8; 32]]) -> [u8; 32] {
    match sum_public_keys(keys) {
        Ok(sum) => sum.to_compressed(),
        Err(_) => panic!("all are points"),
    }
}

#[test]
fn neither_order_nor_grouping_changes_a_sum() {
    let keys = [key(1), key(2), key(40), key(2)];
    assert_eq!(total(&keys), key(45));
    assert_eq!(total(&[key(2), key(40), key(2), key(1)]), total(&keys));
    for i in 0..=keys.len() {
        assert_eq!(total(&[total(&keys[..i]), total(&keys[i..])]), total(&keys));
    }
}

#[test]
fn a_key_counts_as_often_as_it_occurs() {
    assert_eq!(total(&[]), [0; 32]);
    assert_eq!(total(&[key(7)]), key(7));
    assert_eq!(total(&[key(7), key(7)]), key(14));
}

#[test]
fn a_script_key_needs_its_public_key() {
    match multisig_script_key_found(TariKeyId::Named("k".to_string()), Ok(key(3))) {
        Ok(found) => {
            assert_eq!(found.pub_key, key(3));
            assert!(matches!(found.key_id, TariKeyId::Named(name) if name == "k"));
        },
        Err(_) => panic!("the key was found"),
    }
    match multisig_script_key_found(TariKeyId::Zero, Err("locked".to_string())) {
        Err(CommandError::General(words)) => assert_eq!(words, "Failed to get public key: locked"),
        _ => panic!("the key was not found"),
    }
}
