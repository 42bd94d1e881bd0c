use minotari_multisig::error::CommandError;
use minotari_multisig::keys::PrivateKey;
use minotari_multisig::sign::{
    sign_multisig_utxo_by_member, MaskCheck, MemberSigning, OutputSigning, ScriptSigning, SignStep,
};
use minotari_multisig::types::{
    MemberCommitmentSignature, MemberMultisigSignature, MultisigEncumberOutput, MultisigMemberPartyOutput,
    MultisigOutput, Signature, TariAddress, TariKeyId,
};
use tari_common_types::types::{
    CommitmentFactory, CommsDHKE, CompressedCommitment, CompressedPublicKey, PrivateKey as TariPrivateKey,
    UncompressedPublicKey,
};
use tari_crypto::commitment::HomomorphicCommitmentFactory;
use tari_crypto::keys::PublicKey;
use tari_transaction_components::transaction_components::memo_field::MemoField;
use tari_transaction_components::transaction_components::one_sided::shared_secret_to_output_encryption_key;
use tari_script::{push_pubkey_script, ExecutionStack, StackItem, TariScript};
use tari_transaction_components::transaction_components::covenants::Covenant;
use tari_transaction_components::transaction_components::{
    EncryptedData, OutputFeatures, TransactionInput, TransactionInputVersion, TransactionOutput,
    TransactionOutputVersion,
};
use tari_transaction_components::MicroMinotari;
use tari_utilities::ByteArray;

fn scalar(n: u8) -> [u8; 32] {
    let mut bytes = [0u8; 32];
    bytes[0] = n;
    bytes
}

fn tari_scalar(n: u8) -> TariPrivateKey {
    TariPrivateKey::from_canonical_bytes(&scalar(n)).unwrap()
}

fn private(n: u8) -> PrivateKey {
    PrivateKey::from_canonical_bytes(&scalar(n)).unwrap()
}

fn key(n: u8) -> [u8; 32] {
    UncompressedPublicKey::from_secret_key(&tari_scalar(n)).as_bytes().try_into().unwrap()
}

fn commitment(mask: u8, value: u64) -> [u8; 32] {
    CommitmentFactory::default().commit_value(&tari_scalar(mask), value).as_bytes().try_into().unwrap()
}

fn signature(n: u8) -> Signature {
    Signature { public_nonce: key(n + 1), signature: private(n) }
}

// Secrets encrypted for the shared secret with the given number.
fn encrypted(secret: u8) -> Vec<u8> {
    EncryptedData::encrypt_data(
        &shared_secret_to_output_encryption_key(&CommsDHKE::from_canonical_bytes(&key(secret)).unwrap()).unwrap(),
        &CompressedCommitment::from_canonical_bytes(&commitment(7, 900)).unwrap(),
        MicroMinotari::from(900),
        &tari_scalar(7),
        MemoField::new_empty(),
    )
    .unwrap()
    .as_bytes()
    .to_vec()
}

fn features(n: u8) -> OutputFeatures {
    OutputFeatures { maturity: n as u64, ..Default::default() }
}

fn public(bytes: [u8; 32]) -> CompressedPublicKey {
    CompressedPublicKey::new(&bytes)
}

fn committed(bytes: [u8; 32]) -> CompressedCommitment {
    CompressedCommitment::from_canonical_bytes(&bytes).unwrap()
}

fn encumber(n: u8) -> MultisigEncumberOutput {
    MultisigEncumberOutput {
        output_index: n as usize,
        tx_id: 5,
        input_stack: ExecutionStack::new(vec![StackItem::Number(n as i64)]).to_bytes(),
        input_script: push_pubkey_script(&CompressedPublicKey::new(&key(n))).to_bytes(),
        total_script_key: [n + 1; 32],
        script_signature_ephemeral_commitment: [n + 2; 32],
        script_signature_ephemeral_pubkey: [n + 3; 32],
        output_commitment: commitment(7, 900),
        sender_offset_pubkey: [n + 4; 32],
        metadata_signature_ephemeral_commitment: [n + 5; 32],
        metadata_signature_ephemeral_pubkey: [n + 6; 32],
        encrypted_data: encrypted(50),
        output_features: borsh::to_vec(&features(n)).unwrap(),
        shared_secret: key(50),
    }
}

fn record(n: u8) -> MemberCommitmentSignature {
    MemberCommitmentSignature {
        signature: signature(n),
        script_nonce_key_id: TariKeyId::Named(format!("script nonce {}", n)),
        ephemeral_pubkey_id: TariKeyId::Named(format!("script key {}", n)),
        sender_offset_key: TariKeyId::Named(format!("offset {}", n)),
        sender_offset_nonce_key: TariKeyId::Named(format!("offset nonce {}", n)),
    }
}

fn config(commitments: Vec<String>) -> MultisigOutput {
    MultisigOutput {
        session_id: "s".to_string(),
        utxos: vec![],
        commitments,
        minimum_signatures: 2,
        parties_public_keys: vec![],
        fee_per_gram: 1,
        value: 3,
        recipient_address: TariAddress { public_view_key: None, public_spend_key: [9; 32], encoded: vec![] },
        commitment_mask: PrivateKey::zero(),
    }
}

fn start(commitments: Vec<String>, encumbers: Vec<MultisigEncumberOutput>) -> MemberSigning {
    let member = MultisigMemberPartyOutput {
        session_id: "s".to_string(),
        member_public_key: [1; 32],
        commitment_signatures: vec![record(10), record(20)],
    };
    sign_multisig_utxo_by_member(config(commitments), member, encumbers)
}

fn two() -> MemberSigning {
    start(vec!["0a".repeat(32), "0b".repeat(32)], vec![encumber(30), encumber(40)])
}

fn script_signing(state: MemberSigning) -> ScriptSigning {
    match state.next() {
        Ok(SignStep::SignScript(signing)) => signing,
        _ => panic!("a transaction is left"),
    }
}

fn mask_check(step: SignStep) -> MaskCheck {
    match step {
        SignStep::VerifyMask(check) => check,
        _ => panic!("the output was opened"),
    }
}

fn output_signing(step: SignStep) -> OutputSigning {
    match step {
        SignStep::SignOutput(signing) => signing,
        _ => panic!("the mask was verified"),
    }
}

fn signed(step: SignStep) -> MemberSigning {
    match step {
        SignStep::Signed(state) => state,
        _ => panic!("the transaction was signed"),
    }
}

fn done(step: SignStep) -> Vec<MemberMultisigSignature> {
    match step {
        SignStep::Done(signatures) => signatures,
        _ => panic!("the party is done"),
    }
}

fn is_named(id: &TariKeyId, name: &str) -> bool {
    matches!(id, TariKeyId::Named(text) if text == name)
}

fn sign_one(state: MemberSigning, n: u8) -> MemberSigning {
    let check = mask_check(script_signing(state).signed(Some(signature(n))));
    signed(output_signing(check.checked(true)).signed(Some(signature(n + 1)), private(n + 2)))
}

#[test]
fn a_party_signs_every_transaction() {
    let state = sign_one(sign_one(two(), 60), 70);
    let signatures = match state.next() {
        Ok(step) => done(step),
        Err(_) => panic!("no transaction is left"),
    };
    assert_eq!(signatures.len(), 2);
    for (i, record) in signatures.iter().enumerate() {
        let n = 60 + 10 * i as u8;
        assert_eq!(record.output_index, i);
        assert_eq!(record.script_signature.signature.to_bytes(), scalar(n));
        assert_eq!(record.metadata_signature.signature.to_bytes(), scalar(n + 1));
        assert_eq!(record.script_offset.to_bytes(), scalar(n + 2));
    }
}

#[test]
fn signatures_are_made_from_the_transaction_and_the_record() {
    let signing = script_signing(sign_one(two(), 60));
    assert!(is_named(signing.keys().0, "script key 20"));
    assert!(is_named(signing.keys().1, "script nonce 20"));
    let expected = TransactionInput::build_script_signature_challenge(
        &TransactionInputVersion::get_current_version(),
        &committed([42; 32]),
        &public([43; 32]),
        &push_pubkey_script(&public(key(40))),
        &ExecutionStack::new(vec![StackItem::Number(40)]),
        &public([41; 32]),
        &committed([11; 32]),
    );
    assert_eq!(signing.challenge(), Some(expected));
    let check = mask_check(signing.signed(Some(signature(1))));
    assert_eq!(check.output_commitment(), commitment(7, 900));
    assert_eq!(check.value, 900);
    assert_eq!(check.mask.to_bytes(), scalar(7));
    let signing = output_signing(check.checked(true));
    assert_eq!(signing.recipient(), [9; 32]);
    assert!(is_named(signing.offset_keys().0, "script key 20"));
    assert!(is_named(signing.offset_keys().1, "offset 20"));
    assert!(is_named(signing.keys().0, "offset 20"));
    assert!(is_named(signing.keys().1, "offset nonce 20"));
    let expected = TransactionOutput::build_metadata_signature_challenge(
        &TransactionOutputVersion::get_current_version(),
        &push_pubkey_script(&public(key(80))),
        &features(40),
        &public([44; 32]),
        &committed([45; 32]),
        &public([46; 32]),
        &committed(commitment(7, 900)),
        &Covenant::default(),
        &EncryptedData::from_bytes(&signing.state.encumbers[1].encrypted_data).unwrap(),
        MicroMinotari::zero(),
    );
    assert_eq!(signing.challenge(&key(80)), Some(expected));
    assert_ne!(signing.challenge(&key(81)), Some(expected));
}

#[test]
fn there_is_no_challenge_over_bytes_that_cannot_be_read() {
    let mut other = encumber(30);
    other.input_script = vec![0xff, 0xff];
    assert!(TariScript::from_bytes(&[0xff, 0xff]).is_err());
    assert!(script_signing(start(vec!["0a".repeat(32)], vec![other])).challenge().is_none());
    let mut other = encumber(30);
    other.input_stack = vec![0xff];
    assert!(script_signing(start(vec!["0a".repeat(32)], vec![other])).challenge().is_none());
    let mut other = encumber(30);
    other.output_features = vec![];
    let check = mask_check(script_signing(start(vec!["0a".repeat(32)], vec![other])).signed(Some(signature(1))));
    assert!(output_signing(check.checked(true)).challenge(&key(80)).is_none());
    for (length, readable) in [(79, false), (80, true), (336, true), (337, false)] {
        let check = mask_check(script_signing(two()).signed(Some(signature(1))));
        let mut signing = output_signing(check.checked(true));
        signing.state.encumbers[0].encrypted_data = vec![1; length];
        assert_eq!(signing.challenge(&key(80)).is_some(), readable);
    }
}

#[test]
fn a_party_stops_without_a_signature() {
    assert_eq!(done(script_signing(sign_one(two(), 60)).signed(None)).len(), 1);
    let check = mask_check(script_signing(sign_one(two(), 60)).signed(Some(signature(1))));
    assert_eq!(done(output_signing(check.checked(true)).signed(None, private(1))).len(), 1);
}

#[test]
fn a_party_stops_at_an_output_that_it_cannot_open() {
    let mut other = encumber(30);
    other.shared_secret = [0xff; 32];
    let signing = script_signing(start(vec!["0a".repeat(32)], vec![other]));
    assert!(done(signing.signed(Some(signature(1)))).is_empty());
    let mut other = encumber(30);
    other.encrypted_data = encrypted(51);
    let signing = script_signing(start(vec!["0a".repeat(32)], vec![other]));
    assert!(done(signing.signed(Some(signature(1)))).is_empty());
}

#[test]
fn a_party_stops_at_a_mask_that_cannot_be_verified() {
    let check = mask_check(script_signing(two()).signed(Some(signature(1))));
    assert!(done(check.checked(false)).is_empty());
}

#[test]
fn a_party_stops_at_a_blank_signature() {
    let check = mask_check(script_signing(two()).signed(Some(Signature::default())));
    assert!(done(output_signing(check.checked(true)).signed(Some(signature(1)), private(1))).is_empty());
    let check = mask_check(script_signing(two()).signed(Some(signature(1))));
    let mut blank = Signature::default();
    blank.public_nonce = key(3);
    assert!(done(output_signing(check.checked(true)).signed(Some(blank), private(1))).is_empty());
}

#[test]
fn a_commitment_that_is_no_hex_is_an_error() {
    match start(vec!["0a".to_string()], vec![encumber(30)]).next() {
        Err(CommandError::InvalidArgument(words)) => {
            assert_eq!(words, "Invalid commitment hex: Invalid hex representation for the target type")
        },
        _ => panic!("the commitment is too short"),
    }
    match start(vec!["0a0".to_string()], vec![encumber(30)]).next() {
        Err(CommandError::InvalidArgument(words)) => {
            assert_eq!(words, "Invalid commitment hex: Hex string lengths must be a multiple of 2")
        },
        _ => panic!("a digit is missing"),
    }
}

#[test]
fn without_transactions_there_is_nothing_to_sign() {
    match start(vec![], vec![]).next() {
        Ok(step) => assert!(done(step).is_empty()),
        Err(_) => panic!("there is no transaction"),
    }
}
