use minotari_multisig::crypto::{decrypt_data, verify_mask};
use minotari_multisig::error::{CommandError, OutputManagerError};
use minotari_multisig::script::{
    get_multi_sig_script_components, is_multisig_utxo, push_pubkey_script, sum_public_keys_to_encryption_key, Opcode,
    TariScript,
};
use minotari_multisig::session::{
    create_multisig_output, create_named_multisig_output, make_utxo_multisig, BuildStep, BuiltUtxo,
    CreateMultisigUtxoTransferLeaderArgs,
};
use minotari_multisig::weight::RangeProofType;
use minotari_multisig::types::{DbWalletOutput, MultisigOutput, TariAddress, WalletOutput};
use tari_common_types::types::{
    CommitmentFactory, CompressedCommitment, CompressedPublicKey, PrivateKey as TariPrivateKey, UncompressedPublicKey,
};
use tari_crypto::commitment::HomomorphicCommitmentFactory;
use tari_crypto::keys::PublicKey;
use tari_transaction_components::transaction_components::memo_field::MemoField;
use tari_transaction_components::transaction_components::one_sided::public_key_to_output_encryption_key;
use tari_transaction_components::transaction_components::EncryptedData;
use tari_transaction_components::MicroMinotari;
use tari_utilities::hex::to_hex;
use tari_utilities::ByteArray;

const NO_POINT: [u8; 32] = [0xff; 32];

fn scalar(n: u8) -> [u8; 32] {
    let mut bytes = [0u8; 32];
    bytes[0] = n;
    bytes
}

fn tari_scalar(n: u8) -> TariPrivateKey {
    TariPrivateKey::from_canonical_bytes(&scalar(n)).unwrap()
}

fn key(n: u8) -> [u8; 32] {
    UncompressedPublicKey::from_secret_key(&tari_scalar(n)).as_bytes().try_into().unwrap()
}

fn commitment(mask: u8, value: u64) -> [u8; 32] {
    CommitmentFactory::default().commit_value(&tari_scalar(mask), value).as_bytes().try_into().unwrap()
}

// The secrets of an output, encrypted for the key that is the sum of the script keys.
fn encrypted(key_sum: u8, mask: u8, value: u64) -> Vec<u8> {
    EncryptedData::encrypt_data(
        &public_key_to_output_encryption_key(&CompressedPublicKey::new(&key(key_sum))).unwrap(),
        &CompressedCommitment::from_canonical_bytes(&commitment(mask, value)).unwrap(),
        MicroMinotari::from(value),
        &tari_scalar(mask),
        MemoField::new_empty(),
    )
    .unwrap()
    .as_bytes()
    .to_vec()
}

fn script(keys: Vec<[u8; 32]>) -> TariScript {
    TariScript { script: vec![Opcode::CheckMultiSigVerifyAggregatePubKey(2, 2, keys, commitment(7, 1000))] }
}

fn utxo(script: TariScript, encrypted_data: Vec<u8>) -> DbWalletOutput {
    DbWalletOutput {
        hash: [5; 32],
        commitment: commitment(7, 1000),
        wallet_output: WalletOutput { value: 1000, script, encrypted_data },
        payment_id: vec![],
        mined_height: Some(1),
    }
}

fn args(commitment_hash: String) -> CreateMultisigUtxoTransferLeaderArgs {
    CreateMultisigUtxoTransferLeaderArgs {
        utxo_commitment_hash: commitment_hash,
        m: 2,
        public_keys: vec![key(21), key(22)],
        recipient_address: TariAddress {
            public_view_key: Some(key(31)),
            public_spend_key: key(32),
            encoded: vec![1, 2],
        },
    }
}

fn open(utxos: &[DbWalletOutput]) -> Result<MultisigOutput, CommandError> {
    create_named_multisig_output("session".to_string(), utxos, args(to_hex(&commitment(7, 1000))))
}

#[test]
fn a_session_is_opened_for_a_multisig_output() {
    let utxos = vec![utxo(script(vec![key(1), key(2)]), encrypted(3, 7, 1000))];
    let output = match open(&utxos) {
        Ok(output) => output,
        Err(_) => panic!("the output can be opened"),
    };
    assert_eq!(output.session_id, "session");
    assert_eq!(output.utxos, vec!["05".repeat(32)]);
    assert_eq!(output.commitments, vec![to_hex(&commitment(7, 1000))]);
    assert_eq!(output.minimum_signatures, 2);
    assert_eq!(output.parties_public_keys, vec![key(21), key(22)]);
    assert_eq!(output.fee_per_gram, 1);
    assert_eq!(output.value, 1000);
    assert_eq!(output.recipient_address.public_spend_key, key(32));
    assert_eq!(output.commitment_mask.to_bytes(), scalar(7));
}

#[test]
fn a_session_is_named_after_the_time() {
    let utxos = vec![utxo(script(vec![key(1), key(2)]), encrypted(3, 7, 1000))];
    let output = match create_multisig_output(&utxos, args(to_hex(&commitment(7, 1000)))) {
        Ok(output) => output,
        Err(_) => panic!("the output can be opened"),
    };
    assert_eq!(output.session_id.len(), 14);
    assert!(output.session_id.chars().all(|c| c.is_ascii_digit()));
    assert!(output.session_id.as_str() > "20240101000000");
    let number = |from: usize| output.session_id[from..from + 2].parse::<u8>().unwrap();
    assert!((1..=12).contains(&number(4)) && (1..=31).contains(&number(6)));
    assert!(number(8) <= 23 && number(10) <= 59 && number(12) <= 60);
}

#[test]
fn a_session_needs_an_output() {
    match open(&[]) {
        Err(CommandError::General(words)) => assert_eq!(
            words,
            format!("UTXO with commitment hash {} not found", to_hex(&commitment(7, 1000)))
        ),
        _ => panic!("there is no output"),
    }
}

#[test]
fn a_session_needs_a_multisig_script() {
    match open(&[utxo(push_pubkey_script(&key(1)), vec![])]) {
        Err(CommandError::OutputManagerError(OutputManagerError::ServiceError(words))) => {
            assert_eq!(words, "Invalid script")
        },
        _ => panic!("the script is another"),
    }
}

#[test]
fn a_session_needs_script_keys_that_are_points() {
    assert!(matches!(open(&[utxo(script(vec![key(1), NO_POINT]), vec![])]), Err(CommandError::ByteArrayError(_))));
}

#[test]
fn a_session_needs_secrets_for_its_script_keys() {
    match open(&[utxo(script(vec![key(1), key(2)]), encrypted(4, 7, 1000))]) {
        Err(CommandError::General(words)) => assert_eq!(words, "Failed to decrypt output secrets"),
        _ => panic!("the secrets are for other keys"),
    }
}

fn made(keys: Vec<[u8; 32]>, derived: Vec<[u8; 32]>) -> Result<BuiltUtxo, CommandError> {
    let mut building = make_utxo_multisig(&utxo(script(vec![]), vec![]), 2, 3, keys.clone());
    let mut asked = Vec::new();
    loop {
        match building.next() {
            BuildStep::DeriveKey(next, key) => {
                building = next.derived(derived[asked.len()]);
                asked.push(key);
            },
            BuildStep::Derived(done) => {
                assert_eq!(asked, keys);
                return done.build(&commitment(8, 1000));
            },
        }
    }
}

#[test]
fn a_multisig_output_is_locked_by_the_script_keys() {
    let built = match made(vec![key(21), key(22), key(23)], vec![key(1), key(2), key(3)]) {
        Ok(built) => built,
        Err(_) => panic!("all are points"),
    };
    assert_eq!(built.value, 1000);
    assert_eq!(built.fee_per_gram, 1);
    assert_eq!((built.maturity, built.range_proof_type), (0, RangeProofType::BulletProofPlus));
    assert!(built.input_data.is_empty());
    assert!(built.payment_id.is_none());
    assert!(is_multisig_utxo(&built.script));
    match &built.script.script[0] {
        Opcode::CheckMultiSigVerifyAggregatePubKey(m, n, keys, message) => {
            assert_eq!((*m, *n), (2, 3));
            assert_eq!(keys, &vec![key(1), key(2), key(3)]);
            assert_eq!(message, &commitment(8, 1000));
        },
        _ => panic!("a multisig script"),
    }
    // What was encrypted with the recovery key is opened with the key of the script.
    let (keys, _) = get_multi_sig_script_components(&built.script, 1).unwrap();
    let opening_key = match sum_public_keys_to_encryption_key(&keys) {
        Ok(opening_key) => opening_key,
        Err(_) => panic!("all are points"),
    };
    assert_eq!(built.recovery_key.to_bytes(), opening_key.to_bytes());
}

#[test]
fn a_made_output_is_recovered_from_its_script_and_opens_a_session() {
    let built = match made(vec![key(21), key(22)], vec![key(1), key(2)]) {
        Ok(built) => built,
        Err(_) => panic!("all are points"),
    };
    let data = EncryptedData::encrypt_data(
        &TariPrivateKey::from_canonical_bytes(&built.recovery_key.to_bytes()).unwrap(),
        &CompressedCommitment::from_canonical_bytes(&commitment(7, 1000)).unwrap(),
        MicroMinotari::from(built.value),
        &tari_scalar(7),
        MemoField::new_empty(),
    )
    .unwrap();
    let (keys, threshold) = get_multi_sig_script_components(&built.script, 1).unwrap();
    assert_eq!((keys.len(), threshold), (2, 2));
    let opening_key = match sum_public_keys_to_encryption_key(&keys) {
        Ok(opening_key) => opening_key,
        Err(_) => panic!("all are points"),
    };
    let secrets = decrypt_data(&opening_key, &commitment(7, 1000), data.as_bytes()).unwrap();
    assert_eq!((secrets.value, secrets.mask.to_bytes()), (1000, scalar(7)));

    let other = DbWalletOutput { commitment: commitment(6, 1000), ..utxo(push_pubkey_script(&key(1)), vec![]) };
    let output = match open(&[other, utxo(built.script, data.as_bytes().to_vec())]) {
        Ok(output) => output,
        Err(_) => panic!("the output can be opened"),
    };
    assert_eq!(output.value, 1000);
    assert_eq!(verify_mask(&commitment(7, 1000), &output.commitment_mask, output.value), Ok(true));
    assert_eq!(verify_mask(&commitment(6, 1000), &output.commitment_mask, output.value), Ok(false));
}

#[test]
fn a_multisig_output_needs_script_keys_that_are_points() {
    match made(vec![key(21), key(22)], vec![key(1), NO_POINT]) {
        Err(CommandError::General(words)) => assert!(words.starts_with("Failed to sum public keys: ")),
        _ => panic!("one is no point"),
    }
}

#[test]
fn a_made_output_is_sent_and_submitted() {
    let built = || match made(vec![key(21), key(22)], vec![key(1), key(2)]) {
        Ok(built) => built,
        Err(_) => panic!("all are points"),
    };
    let output = built();
    let order = output.order();
    assert_eq!((order.value, order.fee_per_gram), (1000, 1));
    assert!(order.payment_id.is_none());
    let sent = || match built().sent(Ok(77)) {
        Ok(sent) => sent,
        Err(_) => panic!("there is a transaction"),
    };
    let transaction = sent();
    let submission = transaction.order();
    assert_eq!((submission.tx_id, submission.amount), (77, 1000));
    assert!(submission.payment_id.is_none());
    assert!(matches!(sent().submitted(Ok(())), Ok(77)));
    match built().sent(Err("poor".to_string())) {
        Err(CommandError::General(words)) => assert_eq!(words, "Failed to send to self: poor"),
        _ => panic!("there is no transaction"),
    }
    match sent().submitted(Err("busy".to_string())) {
        Err(CommandError::General(words)) => assert_eq!(words, "Failed to submit transaction: busy"),
        _ => panic!("it was not submitted"),
    }
}
