use minotari_multisig::encumber::{
    encumber_aggregate_utxo, encumber_named_utxo, ConfirmedSpend, EncumberRequest, FetchedOutput, OpenedInput,
    PlannedSpend, SignedInput, TransactionDirection, TransactionStatus, UpdatedInput, WalletStep,
};
use minotari_multisig::crypto::{decrypt_data, encryption_key_of_secret, spending_key_of_secret};
use minotari_multisig::error::{CommandError, OutputManagerError};
use minotari_multisig::key_map::KeyMap;
use minotari_multisig::keys::{PrivateKey, RistrettoPublicKey};
use minotari_multisig::script::{push_pubkey_script, sum_public_keys, Opcode, TariScript};
use minotari_multisig::types::{Signature, TariAddress, TariKeyId};
use minotari_multisig::weight::{RangeProofType, TransactionWeight};
use tari_common_types::types::{
    CommitmentFactory, CommsDHKE, CompressedCommitment, CompressedPublicKey, PrivateKey as TariPrivateKey,
    UncompressedPublicKey,
};
use tari_crypto::commitment::HomomorphicCommitmentFactory;
use tari_crypto::keys::PublicKey;
use tari_transaction_components::transaction_components::memo_field::MemoField;
use tari_transaction_components::transaction_components::one_sided::{
    public_key_to_output_encryption_key, shared_secret_to_output_encryption_key,
    shared_secret_to_output_spending_key,
};
use tari_transaction_components::transaction_components::EncryptedData;
use tari_transaction_components::MicroMinotari;
use tari_utilities::ByteArray;

const NO_POINT: [u8; 32] = [0xff; 32];

fn scalar(n: u8) -> [u8; 32] {
    let mut bytes = [0u8; 32];
    bytes[0] = n;
    bytes
}

fn tari_scalar(n: u8) -> TariPrivateKey {
    TariPrivateKey::from_canonical_bytes(&scalar(n)).unwrap()
}

fn key(n: u8) -> [u8; 32] {
    UncompressedPublicKey::from_secret_key(&tari_scalar(n)).as_bytes().try_into().unwrap()
}

fn commitment(mask: u8, value: u64) -> [u8; 32] {
    CommitmentFactory::default().commit_value(&tari_scalar(mask), value).as_bytes().try_into().unwrap()
}

fn signature(n: u8) -> Signature {
    Signature { public_nonce: key(n), signature: PrivateKey::from_canonical_bytes(&scalar(n)).unwrap() }
}

// Secrets encrypted for the key that is the sum of the script keys, and for a commitment that may be another's.
fn encrypted(key_sum: u8, commitment: [u8; 32], mask: u8, value: u64) -> Vec<u8> {
    EncryptedData::encrypt_data(
        &public_key_to_output_encryption_key(&CompressedPublicKey::new(&key(key_sum))).unwrap(),
        &CompressedCommitment::from_canonical_bytes(&commitment).unwrap(),
        MicroMinotari::from(value),
        &tari_scalar(mask),
        MemoField::new_empty(),
    )
    .unwrap()
    .as_bytes()
    .to_vec()
}

fn script(m: u8, keys: Vec<[u8; 32]>) -> TariScript {
    let n = keys.len() as u8;
    TariScript { script: vec![Opcode::CheckMultiSigVerifyAggregatePubKey(m, n, keys, commitment(7, 1000))] }
}

fn output() -> FetchedOutput {
    FetchedOutput {
        commitment: commitment(7, 1000),
        script: script(2, vec![key(1), key(2), key(4)]),
        encrypted_data: encrypted(7, commitment(7, 1000), 7, 1000),
    }
}

fn address(view_key: Option<[u8; 32]>, spend_key: [u8; 32]) -> TariAddress {
    TariAddress { public_view_key: view_key, public_spend_key: spend_key, encoded: vec![] }
}

fn request() -> EncumberRequest {
    EncumberRequest {
        prevent_fee_gt_amount: false,
        own_address: address(None, key(90)),
        fee_per_gram: 1,
        expected_commitment: commitment(7, 1000),
        script_input_shares: KeyMap::new().insert(key(4), signature(44)),
        script_signature_public_nonces: vec![key(10), key(11)],
        sender_offset_public_key_shares: vec![key(20), key(21)],
        metadata_ephemeral_public_key_shares: vec![key(30), key(31)],
        dh_shared_secret_shares: vec![key(40), key(41)],
        recipient_address: address(Some(key(91)), key(92)),
        tx_payment_id: vec![1, 2, 3],
        original_maturity: 17,
        range_proof_type: RangeProofType::BulletProofPlus,
        minimum_value_promise: 0,
        output_hash: [0xab; 32],
    }
}

fn weight() -> TransactionWeight {
    TransactionWeight {
        kernel_weight: 10,
        input_weight: 8,
        output_weight: 53,
        features_and_scripts_bytes_per_gram: 16,
    }
}

fn ok<T>(result: Result<T, CommandError>) -> T {
    match result {
        Ok(value) => value,
        Err(e) => panic!("{:?}", e),
    }
}

fn failed<T>(result: Result<T, CommandError>) -> CommandError {
    match result {
        Ok(_) => panic!("it must fail"),
        Err(e) => e,
    }
}

fn argument<T>(result: Result<T, CommandError>) -> String {
    match failed(result) {
        CommandError::InvalidArgument(words) => words,
        _ => panic!("an argument is wrong"),
    }
}

fn is_key_error<T>(result: Result<T, CommandError>) -> bool {
    matches!(failed(result), CommandError::ByteArrayError(_))
}

fn opened(request: EncumberRequest) -> OpenedInput {
    ok(encumber_named_utxo(request, 5, vec![output()]))
}

fn signed(request: EncumberRequest) -> SignedInput {
    ok(opened(request).add_own_signature(key(1), signature(41)))
}

fn planned(request: EncumberRequest) -> PlannedSpend {
    signed(request).plan(weight())
}

fn confirmed(request: EncumberRequest) -> ConfirmedSpend {
    ok(planned(request).confirmed(Ok(())))
}

fn updated(request: EncumberRequest) -> UpdatedInput {
    let shared = ok(ok(confirmed(request).request_secret(Ok(Some(TariKeyId::Zero)))).add_own_secret(key(42)));
    let nonces = ok(ok(shared.add_own_sender_offset(key(22))).add_metadata_nonces());
    let nonces = ok(ok(nonces.add_own_nonce(key(32))).add_script_nonces());
    ok(nonces.add_own_nonce(key(12), key(5)))
}

#[test]
fn an_output_is_opened_with_the_keys_of_its_script() {
    let opened = opened(request());
    assert_eq!(opened.tx_id, 5);
    assert_eq!(opened.keys, vec![key(1), key(2), key(4)]);
    assert_eq!(opened.threshold, 2);
    assert_eq!(opened.secrets.value, 1000);
    assert_eq!(opened.secrets.mask.to_bytes(), scalar(7));
    assert_eq!(opened.message(), commitment(7, 1000));
}

#[test]
fn transactions_have_random_names() {
    let first = ok(encumber_aggregate_utxo(request(), vec![output()]));
    let second = ok(encumber_aggregate_utxo(request(), vec![output()]));
    assert_ne!(first.tx_id, second.tx_id);
    assert_eq!(first.keys, second.keys);
}

#[test]
fn an_output_must_be_there() {
    assert_eq!(
        argument(encumber_named_utxo(request(), 5, vec![])),
        format!("Output with hash {} not found in blockchain (TxId: 5)", "ab".repeat(32))
    );
}

#[test]
fn an_output_must_have_the_expected_commitment() {
    let mut other = request();
    other.expected_commitment = commitment(8, 1000);
    assert_eq!(
        argument(encumber_named_utxo(other, 5, vec![output()])),
        "Output commitment does not match expected commitment (TxId: 5)"
    );
}

#[test]
fn an_output_must_have_a_multisig_script() {
    let mut other = output();
    other.script = push_pubkey_script(&key(1));
    match failed(encumber_named_utxo(request(), 6, vec![other])) {
        CommandError::OutputManagerError(OutputManagerError::ServiceError(words)) => {
            assert_eq!(words, "Invalid script (TxId: 6)")
        },
        _ => panic!("the script is another"),
    }
}

#[test]
fn an_output_must_have_script_keys_that_are_points() {
    let mut other = output();
    other.script = script(2, vec![key(1), NO_POINT]);
    assert!(is_key_error(encumber_named_utxo(request(), 5, vec![other])));
}

#[test]
fn an_output_must_be_encrypted_for_its_script_keys() {
    let mut other = output();
    other.encrypted_data = encrypted(8, commitment(7, 1000), 7, 1000);
    assert_eq!(
        argument(encumber_named_utxo(request(), 5, vec![other])),
        "Could not decrypt output (TxId: 5)"
    );
}

#[test]
fn an_output_must_be_one_to_its_mask() {
    let mut other = output();
    other.encrypted_data = encrypted(7, commitment(7, 1000), 7, 1001);
    assert_eq!(argument(encumber_named_utxo(request(), 5, vec![other])), "Could not verify mask (TxId: 5)");
}

#[test]
fn a_commitment_that_is_no_point_has_no_mask() {
    let mut other = output();
    other.commitment = NO_POINT;
    other.encrypted_data = encrypted(7, NO_POINT, 7, 1000);
    let mut asked = request();
    asked.expected_commitment = NO_POINT;
    assert!(matches!(
        failed(encumber_named_utxo(asked, 5, vec![other])),
        CommandError::TransactionError(words) if !words.is_empty()
    ));
}

#[test]
fn signatures_stand_in_the_order_of_the_script() {
    let signed = signed(request());
    assert_eq!(signed.signatures.len(), 2);
    assert_eq!(signed.signatures[0].public_nonce, key(41));
    assert_eq!(signed.signatures[1].public_nonce, key(44));
    assert_eq!(signed.script_key_shares.to_compressed(), key(4));
}

#[test]
fn the_script_asks_for_a_number_of_signatures() {
    let mut more = request();
    more.script_input_shares = KeyMap::new().insert(key(4), signature(44)).insert(key(2), signature(42));
    assert_eq!(
        argument(opened(more).add_own_signature(key(1), signature(41))),
        "Invalid number of signatures (TxId: 5), expected 2, received 3"
    );
    let mut fewer = request();
    fewer.script_input_shares = KeyMap::new().insert(key(9), signature(49));
    assert_eq!(
        argument(opened(fewer).add_own_signature(key(1), signature(41))),
        "Invalid number of signatures (TxId: 5), expected 2, received 1"
    );
}

#[test]
fn fee_and_amount_add_up_to_the_value() {
    let signed = signed(request());
    assert_eq!(signed.get_fee(&weight()), 75);
    let spend = signed.plan(weight());
    assert_eq!((spend.fee, spend.amount), (75, 925));
    let order = spend.order();
    assert_eq!(order.lock_height, 0);
    assert_eq!(order.fee_per_gram, 1);
    assert!(!order.prevent_fee_gt_amount);
    assert!(matches!(order.recipient_script.script[0], Opcode::PushPubKey(k) if k == key(92)));
    assert_eq!(order.maturity, 17);
    assert_eq!(order.range_proof_type, RangeProofType::BulletProofPlus);
    assert_eq!(order.minimum_value_promise, 0);
    assert_eq!(order.amount, 925);
    assert_eq!(order.recipient_address.public_spend_key, key(92));
    assert_eq!((order.input, order.input_value), (commitment(7, 1000), 1000));
    assert_eq!(order.kernel_features, 0);
    assert!(order.covenant.is_empty());
    assert_eq!(order.change.script.script.len(), 1);
    assert!(matches!(order.change.script.script[0], Opcode::PushPubKey(k) if k == [0; 32]));
    assert!(order.change.input_data.is_empty());
    assert!(matches!(order.change.script_key_id, TariKeyId::Zero));
    assert!(matches!(order.change.commitment_mask_key_id, TariKeyId::Zero));
    assert!(order.change.covenant.is_empty());
    assert_eq!(order.change.address.public_spend_key, key(90));
    assert_eq!(order.payment_id, &serde_json::to_vec(&MemoField::new_empty()).unwrap());
}

#[test]
fn a_started_transaction_is_confirmed_without_change() {
    let spend = planned(request());
    let confirmation = spend.confirmation();
    assert_eq!(confirmation.tx_id, 5);
    assert!(confirmation.change.is_empty());
    assert_eq!(ok(spend.confirmed(Ok(()))).spend.amount, 925);
    match failed(planned(request()).confirmed(Err(OutputManagerError::ServiceError("busy".to_string())))) {
        CommandError::OutputManagerError(OutputManagerError::ServiceError(words)) => assert_eq!(words, "busy"),
        _ => panic!("it was not confirmed"),
    }
}

#[test]
fn the_shared_secret_is_a_sum() {
    let asked = ok(confirmed(request()).request_secret(Ok(Some(TariKeyId::Zero))));
    assert_eq!(asked.view_key, key(91));
    assert_eq!(asked.secret_shares.to_compressed(), key(81));
    let shared = ok(asked.add_own_secret(key(42)));
    assert_eq!(shared.secret.to_compressed(), key(123));
    let secret = CommsDHKE::from_canonical_bytes(&key(123)).unwrap();
    let spending_key = shared_secret_to_output_spending_key(&secret).unwrap();
    assert_eq!(shared.spending_key.to_bytes().to_vec(), spending_key.as_bytes().to_vec());
    let encryption_key = shared_secret_to_output_encryption_key(&secret).unwrap();
    assert_eq!(shared.encryption_key.to_bytes().to_vec(), encryption_key.as_bytes().to_vec());
}

#[test]
fn the_shared_secret_needs_points_and_a_view_key() {
    let mut bad = request();
    bad.dh_shared_secret_shares = vec![key(40), NO_POINT];
    bad.recipient_address = address(None, key(92));
    assert!(is_key_error(confirmed(bad).request_secret(Ok(Some(TariKeyId::Zero)))));
    let mut bad = request();
    bad.recipient_address = address(None, key(92));
    match failed(confirmed(bad).request_secret(Ok(Some(TariKeyId::Zero)))) {
        CommandError::General(words) => assert_eq!(words, "Missing public view key (TxId: 5)"),
        _ => panic!("there is no view key"),
    }
    assert!(is_key_error(ok(confirmed(request()).request_secret(Ok(Some(TariKeyId::Zero)))).add_own_secret(NO_POINT)));
}

#[test]
fn every_total_is_a_sum_of_shares() {
    let input = updated(request());
    let nonces = &input.nonces.built.nonces;
    assert_eq!(nonces.sender.shares.to_compressed(), key(41));
    assert_eq!(nonces.sender.total.to_compressed(), key(63));
    let order = nonces.order(&key(70));
    assert_eq!(order.amount, 925);
    assert!(matches!(order.script.script[0], Opcode::PushPubKey(k) if k == key(70)));
    assert_eq!(order.payment_id, &vec![1, 2, 3]);
    assert_eq!(order.sender_offset_public_key, key(63));
    assert_eq!(order.sender_offset_shares, key(41));
    assert_eq!(order.nonce_shares, key(61));
    assert_eq!(order.minimum_value_promise, 0);
    let order = input.nonces.order();
    assert_eq!(order.nonce_shares, key(21));
    assert_eq!(order.script_key_shares, key(4));
    let finished = ok(input.finish(80, &[key(1)], &[key(2)], &[key(3)], vec![[6; 32]]));
    let transaction = ok(finished.recorded(Ok(())));
    assert_eq!(transaction.tx_id, 5);
    assert_eq!(transaction.amount, 925);
    assert_eq!(transaction.fee, 80);
    assert_eq!(transaction.total_script_key, key(5));
    assert_eq!(transaction.total_metadata_nonce, key(93));
    assert_eq!(transaction.total_script_nonce, key(33));
    assert_eq!(transaction.shared_secret, key(123));
}

#[test]
fn every_share_must_be_a_point() {
    let shared = |request| ok(ok(confirmed(request).request_secret(Ok(Some(TariKeyId::Zero)))).add_own_secret(key(42)));
    let mut bad = request();
    bad.sender_offset_public_key_shares = vec![NO_POINT];
    assert!(is_key_error(shared(bad).add_own_sender_offset(key(22))));
    assert!(is_key_error(shared(request()).add_own_sender_offset(NO_POINT)));
    let mut bad = request();
    bad.metadata_ephemeral_public_key_shares = vec![NO_POINT];
    assert!(is_key_error(ok(shared(bad).add_own_sender_offset(key(22))).add_metadata_nonces()));
    let nonces = |request| ok(ok(shared(request).add_own_sender_offset(key(22))).add_metadata_nonces());
    assert!(is_key_error(nonces(request()).add_own_nonce(NO_POINT)));
    let mut bad = request();
    bad.script_signature_public_nonces = vec![NO_POINT];
    assert!(is_key_error(ok(nonces(bad).add_own_nonce(key(32))).add_script_nonces()));
    let nonces = ok(ok(nonces(request()).add_own_nonce(key(32))).add_script_nonces());
    assert!(is_key_error(nonces.add_own_nonce(NO_POINT, key(5))));
}

#[test]
fn every_commitment_of_the_transaction_must_be_a_point() {
    let input = || updated(request());
    assert!(is_key_error(input().finish(80, &[key(1), NO_POINT], &[key(2)], &[key(3)], vec![])));
    assert!(is_key_error(input().finish(80, &[key(1)], &[NO_POINT], &[key(3)], vec![])));
    assert!(is_key_error(input().finish(80, &[key(1)], &[key(2)], &[NO_POINT], vec![])));
}

#[test]
fn a_finished_transaction_is_recorded_as_pending() {
    let finished = ok(updated(request()).finish(80, &[key(1)], &[key(2)], &[key(3)], vec![[6; 32], [8; 32]]));
    let record = finished.record();
    assert_eq!((record.tx_id, record.amount, record.fee), (5, 925, 80));
    assert_eq!(record.source.public_spend_key, key(90));
    assert_eq!(record.destination.public_spend_key, key(92));
    assert!(matches!(record.status, TransactionStatus::Pending));
    assert!(matches!(record.direction, TransactionDirection::Outbound));
    assert_eq!(record.mined_height, None);
    assert_eq!(record.payment_id, &serde_json::to_vec(&MemoField::new_empty()).unwrap());
    assert_eq!(record.sent_output_hashes, &vec![[6; 32], [8; 32]]);
    assert!(record.received_output_hashes.is_empty());
    assert!(record.change_output_hashes.is_empty());
    match failed(finished.recorded(Err("full".to_string()))) {
        CommandError::General(words) => assert_eq!(words, "Failed to insert completed transaction: full"),
        _ => panic!("it was not recorded"),
    }
}

#[test]
fn the_recipient_opens_the_new_output_with_the_shared_secret() {
    let mut wanted = request();
    wanted.tx_payment_id = serde_json::to_vec(&MemoField::new_empty()).unwrap();
    let input = updated(wanted);
    let order = input.nonces.built.nonces.order(&key(70));
    let mask = TariPrivateKey::from_canonical_bytes(&order.spending_key.to_bytes()).unwrap();
    let output = CommitmentFactory::default().commit_value(&mask, order.amount);
    let output = CompressedCommitment::from_canonical_bytes(output.as_bytes()).unwrap();
    let data = EncryptedData::encrypt_data(
        &TariPrivateKey::from_canonical_bytes(&order.encryption_key.to_bytes()).unwrap(),
        &output,
        MicroMinotari::from(order.amount),
        &mask,
        serde_json::from_slice(order.payment_id).unwrap(),
    )
    .unwrap();
    let output: [u8; 32] = output.as_bytes().try_into().unwrap();
    let finished = ok(input.finish(75, &[output], &[commitment(7, 1000)], &[key(3)], vec![[6; 32]]));
    let transaction = ok(finished.recorded(Ok(())));

    let secret = RistrettoPublicKey::from_compressed(&transaction.shared_secret).unwrap();
    let secrets = decrypt_data(&encryption_key_of_secret(&secret), &output, data.as_bytes()).unwrap();
    assert_eq!(secrets.value, 925);
    assert_eq!(secrets.mask.to_bytes(), spending_key_of_secret(&secret).to_bytes());
    assert_eq!(secrets.payment_id, serde_json::to_vec(&MemoField::new_empty()).unwrap());
    let other = RistrettoPublicKey::from_compressed(&key(42)).unwrap();
    assert!(decrypt_data(&encryption_key_of_secret(&other), &output, data.as_bytes()).is_none());
}

#[test]
fn the_last_output_that_the_node_gave_is_spent() {
    let mut other = output();
    other.commitment = key(1);
    let opened = ok(encumber_named_utxo(request(), 5, vec![other, output()]));
    assert_eq!((opened.index, opened.output.commitment), (1, commitment(7, 1000)));
}

#[test]
fn the_secret_is_made_with_the_sender_offset_key() {
    assert_eq!(planned(request()).sender_offset_branch(), "one sided sender offset");
    let name = || TariKeyId::Named("offset".to_string());
    let asked = ok(confirmed(request()).request_secret(Ok(Some(name()))));
    let (key_id, view_key) = asked.secret_keys();
    assert!(matches!(key_id, TariKeyId::Named(n) if n == "offset"));
    assert_eq!(*view_key, key(91));
    let words = |reply| match failed(confirmed(request()).request_secret(reply)) {
        CommandError::General(words) => words,
        _ => panic!("there is no key"),
    };
    assert_eq!(words(Ok(None)), "Missing sender offset private key ID (TxId: 5)");
    assert_eq!(
        words(Err("gone".to_string())),
        "Failed to get recipient sender offset private key (TxId: 5): gone"
    );
}

#[test]
fn the_script_key_comes_from_the_recipient() {
    let input = updated(request());
    let nonces = &input.nonces.built.nonces;
    assert_eq!(nonces.recipient(), key(92));
    assert!(matches!(nonces.order(&key(70)).sender_offset_key, TariKeyId::Zero));
}

#[test]
fn a_step_that_failed_has_its_words() {
    let words = |step: WalletStep| match step.failure(5, "why") {
        CommandError::General(words) => words,
        _ => panic!("a failure in words"),
    };
    assert_eq!(words(WalletStep::ChangeSenderOffset), "Failed to change recipient sender offset private key: why");
    assert_eq!(words(WalletStep::BuildMessage), "Failed to build single round message: why");
    assert_eq!(words(WalletStep::GetMessage), "Failed to get single round message: why");
    assert_eq!(words(WalletStep::BuildOutput), "Error (TxId: 5): why");
    assert_eq!(words(WalletStep::GetSignedData), "Failed to get signed data: why");
    assert_eq!(words(WalletStep::AddRecipient), "Failed to add presigned recipient info: why");
    assert_eq!(words(WalletStep::Finalize), "Failed to finalize transaction (TxId: 5): why");
    assert_eq!(words(WalletStep::GetTransaction), "Failed to get transaction: why");
    assert_eq!(words(WalletStep::GetFee), "Failed to get fee amount: why");
    assert_eq!(words(WalletStep::CompleteRecord), "5: why");
}

#[test]
fn the_total_script_key_is_that_of_the_keys_that_signed() {
    // The first and the third key of the script have signed; the first is the wallet's own.
    let order = updated(request()).nonces.order();
    let shares = RistrettoPublicKey::from_compressed(&order.script_key_shares).unwrap();
    let total = shares.plus(&RistrettoPublicKey::from_compressed(&key(1)).unwrap());
    assert_eq!(total.to_compressed(), ok(sum_public_keys(&[key(1), key(4)])).to_compressed());
}

#[test]
fn a_transaction_is_only_partial() {
    let input = updated(request());
    assert_ne!(input.total_nonce.to_compressed(), input.own_nonce);
    assert_ne!(input.nonces.built.total_nonce.to_compressed(), input.nonces.built.own_nonce);
    let mut alone = request();
    alone.script_signature_public_nonces = vec![];
    let input = updated(alone);
    assert_eq!(input.total_nonce.to_compressed(), input.own_nonce);
}
