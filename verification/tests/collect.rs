use minotari_multisig::collect::{
    collect_multisig_utxo_encumber, CollectStep, Collection, EncumberStep, Encumbering, TransactionParts,
};
use minotari_multisig::encumber::{EncumberRequest, EncumberedTransaction};
use minotari_multisig::error::CommandError;
use minotari_multisig::keys::PrivateKey;
use minotari_multisig::script::TariScript;
use minotari_multisig::types::{
    DbWalletOutput, LeaderCommitmentSignature, MultisigEncumberOutput, MultisigLeaderPartyOutput, MultisigOutput,
    Signature, TariAddress, WalletOutput,
};
use minotari_multisig::weight::RangeProofType;
use tari_common_types::types::{PrivateKey as TariPrivateKey, UncompressedPublicKey};
use tari_crypto::keys::PublicKey;
use tari_utilities::ByteArray;

const NO_POINT: [u8; 32] = [0xff; 32];

fn key(n: u8) -> [u8; 32] {
    let mut bytes = [0u8; 32];
    bytes[0] = n;
    let secret = TariPrivateKey::from_canonical_bytes(&bytes).unwrap();
    UncompressedPublicKey::from_secret_key(&secret).as_bytes().try_into().unwrap()
}

fn address(spend_key: [u8; 32], encoded: u8) -> TariAddress {
    TariAddress { public_view_key: Some([8; 32]), public_spend_key: spend_key, encoded: vec![encoded] }
}

fn config(parties: Vec<[u8; 32]>, commitments: Vec<u8>) -> MultisigOutput {
    MultisigOutput {
        session_id: "s".to_string(),
        utxos: vec![],
        commitments: commitments.iter().map(|c| format!("{:02x}", c).repeat(32)).collect(),
        minimum_signatures: 2,
        parties_public_keys: parties,
        fee_per_gram: 1,
        value: 3,
        recipient_address: address([9; 32], 2),
        commitment_mask: PrivateKey::zero(),
    }
}

fn given(n: u8) -> LeaderCommitmentSignature {
    LeaderCommitmentSignature {
        signature: Signature { public_nonce: [n; 32], signature: PrivateKey::zero() },
        ephemeral_pubkey: [n + 1; 32],
        dh_shared_secret_public_key: [n + 2; 32],
        script_nonce_key: [n + 3; 32],
        sender_offset_public_key: [n + 4; 32],
        sender_offset_public_nonce_key: [n + 5; 32],
    }
}

fn record(party: [u8; 32], signatures: Vec<LeaderCommitmentSignature>) -> MultisigLeaderPartyOutput {
    MultisigLeaderPartyOutput {
        session_id: "s".to_string(),
        member_public_key: party,
        commitment_signatures: signatures,
    }
}

fn utxo(name: u8, mined_height: Option<u64>) -> DbWalletOutput {
    DbWalletOutput {
        hash: [name + 100; 32],
        commitment: [name; 32],
        wallet_output: WalletOutput { value: 5, script: TariScript { script: vec![] }, encrypted_data: vec![] },
        payment_id: vec![name, 1],
        mined_height,
    }
}

// Asks every party, and gives what the leader has then.
fn collected(
    config: MultisigOutput,
    reply: impl Fn([u8; 32]) -> Option<MultisigLeaderPartyOutput>,
) -> Result<(Collection, Vec<[u8; 32]>), CommandError> {
    let mut asked = Vec::new();
    let mut step = collect_multisig_utxo_encumber(config, address(key(1), 1));
    loop {
        match step {
            CollectStep::LoadParty(load) => {
                let party = load.party;
                asked.push(party);
                step = load.loaded(reply(party))?;
            },
            CollectStep::FetchOutputs(collection) => return Ok((collection, asked)),
        }
    }
}

fn encumbering(step: Result<EncumberStep, CommandError>) -> (Encumbering, EncumberRequest) {
    match step {
        Ok(EncumberStep::Encumber(state, request)) => (state, request),
        _ => panic!("a commitment is left"),
    }
}

fn done(step: Result<EncumberStep, CommandError>) -> Vec<MultisigEncumberOutput> {
    match step {
        Ok(EncumberStep::Done(outputs)) => outputs,
        _ => panic!("no commitment is left"),
    }
}

fn transaction(n: u8) -> Option<(EncumberedTransaction, TransactionParts)> {
    Some((
        EncumberedTransaction {
            tx_id: n as u64,
            amount: 4,
            fee: 1,
            total_script_key: [n + 1; 32],
            total_metadata_nonce: [n + 2; 32],
            total_script_nonce: [n + 3; 32],
            shared_secret: [n + 4; 32],
        },
        TransactionParts {
            input_stack: vec![n],
            input_script: vec![n + 11],
            script_signature_ephemeral_commitment: [n + 5; 32],
            output_commitment: [n + 6; 32],
            sender_offset_pubkey: [n + 7; 32],
            metadata_signature_ephemeral_commitment: [n + 8; 32],
            encrypted_data: vec![n + 9],
            output_features: vec![n + 10],
        },
    ))
}

fn collection(commitments: Vec<u8>) -> Collection {
    match collected(config(vec![key(2), key(1), key(3)], commitments), |party| {
        Some(record(party, if party == key(2) { vec![given(10), given(20)] } else { vec![given(30)] }))
    }) {
        Ok((collection, _)) => collection,
        Err(_) => panic!("every party gave its record"),
    }
}

#[test]
fn every_party_but_the_leader_is_asked_in_order() {
    let (collection, asked) = match collected(config(vec![key(1), key(2), key(1), key(3)], vec![]), |party| {
        Some(record(party, vec![]))
    }) {
        Ok(collected) => collected,
        Err(_) => panic!("every party gave its record"),
    };
    assert_eq!(asked, vec![key(2), key(3)]);
    assert_eq!(collection.records.len(), 2);
    assert_eq!(collection.records[1].member_public_key, key(3));
}

#[test]
fn a_party_without_a_record_is_left_out() {
    let (collection, asked) = match collected(config(vec![key(2), key(3)], vec![]), |party| {
        if party == key(3) { Some(record(party, vec![])) } else { None }
    }) {
        Ok(collected) => collected,
        Err(_) => panic!("every key is a point"),
    };
    assert_eq!(asked, vec![key(2), key(3)]);
    assert_eq!(collection.records.len(), 1);
}

#[test]
fn a_party_without_a_record_whose_key_is_no_point_is_an_error() {
    let result = collected(config(vec![key(2), NO_POINT], vec![]), |_| None);
    assert!(matches!(result, Err(CommandError::ByteArrayError(_))));
    let result = collected(config(vec![NO_POINT], vec![]), |party| Some(record(party, vec![])));
    assert!(result.is_ok());
}

#[test]
fn requests_hold_all_shares() {
    let (state, request) = encumbering(collection(vec![4]).fetched(vec![utxo(3, None), utxo(4, Some(77))]));
    assert!(!request.prevent_fee_gt_amount);
    assert_eq!(request.own_address.encoded, vec![1]);
    assert_eq!(request.fee_per_gram, 1);
    assert_eq!(request.expected_commitment, [4; 32]);
    assert_eq!(request.script_input_shares.get(&[11; 32]).unwrap().public_nonce, [10; 32]);
    assert_eq!(request.script_input_shares.get(&[31; 32]).unwrap().public_nonce, [30; 32]);
    assert!(request.script_input_shares.get(&[41; 32]).is_none());
    assert_eq!(request.script_signature_public_nonces, vec![[13; 32], [23; 32], [33; 32]]);
    assert_eq!(request.sender_offset_public_key_shares, vec![[14; 32], [24; 32], [34; 32]]);
    assert_eq!(request.metadata_ephemeral_public_key_shares, vec![[15; 32], [25; 32], [35; 32]]);
    assert_eq!(request.dh_shared_secret_shares, vec![[12; 32], [22; 32], [32; 32]]);
    assert_eq!(request.recipient_address.public_spend_key, [9; 32]);
    assert_eq!(request.tx_payment_id, vec![4, 1]);
    assert_eq!(request.original_maturity, 77);
    assert_eq!(request.range_proof_type, RangeProofType::BulletProofPlus);
    assert_eq!(request.minimum_value_promise, 0);
    assert_eq!(request.output_hash, [104; 32]);
    assert!(done(state.encumbered(None)).is_empty());
}

#[test]
fn transactions_are_recorded_in_the_order_of_the_commitments() {
    let utxos = vec![utxo(6, Some(1)), utxo(5, Some(2)), utxo(4, Some(3))];
    let (state, request) = encumbering(collection(vec![4, 5, 6]).fetched(utxos));
    assert_eq!(request.original_maturity, 3);
    let (state, request) = encumbering(state.encumbered(transaction(50)));
    assert_eq!(request.original_maturity, 2);
    let (state, request) = encumbering(state.encumbered(None));
    assert_eq!(request.original_maturity, 1);
    let outputs = done(state.encumbered(transaction(80)));
    assert_eq!(outputs.len(), 2);
    assert_eq!((outputs[0].output_index, outputs[0].tx_id), (0, 50));
    assert_eq!((outputs[1].output_index, outputs[1].tx_id), (2, 80));
    let output = &outputs[0];
    assert_eq!(output.input_stack, vec![50]);
    assert_eq!(output.input_script, vec![61]);
    assert_eq!(output.total_script_key, [51; 32]);
    assert_eq!(output.metadata_signature_ephemeral_pubkey, [52; 32]);
    assert_eq!(output.script_signature_ephemeral_pubkey, [53; 32]);
    assert_eq!(output.shared_secret, [54; 32]);
    assert_eq!(output.script_signature_ephemeral_commitment, [55; 32]);
    assert_eq!(output.output_commitment, [56; 32]);
    assert_eq!(output.sender_offset_pubkey, [57; 32]);
    assert_eq!(output.metadata_signature_ephemeral_commitment, [58; 32]);
    assert_eq!(output.encrypted_data, vec![59]);
    assert_eq!(output.output_features, vec![60]);
}

#[test]
fn a_commitment_without_an_output_is_an_error() {
    match collection(vec![4]).fetched(vec![utxo(3, Some(1))]) {
        Err(CommandError::General(words)) => {
            assert_eq!(words, format!("UTXO not found in output: {}", "04".repeat(32)))
        },
        _ => panic!("there is no such output"),
    }
}

#[test]
fn an_output_that_was_not_mined_is_an_error() {
    match collection(vec![4]).fetched(vec![utxo(4, None)]) {
        Err(CommandError::General(words)) => assert_eq!(words, "UTXO mined height is missing"),
        _ => panic!("the output was not mined"),
    }
}

#[test]
fn the_later_signature_for_a_key_counts() {
    let mut later = given(10);
    later.signature.public_nonce = [99; 32];
    let result = collected(config(vec![key(2), key(3)], vec![4]), |party| {
        Some(record(party, if party == key(2) { vec![given(10)] } else { vec![later] }))
    });
    let collection = match result {
        Ok((collection, _)) => collection,
        Err(_) => panic!("every party gave its record"),
    };
    let (_, request) = encumbering(collection.fetched(vec![utxo(4, Some(1))]));
    assert_eq!(request.script_input_shares.get(&[11; 32]).unwrap().public_nonce, [99; 32]);
    assert_eq!(request.script_signature_public_nonces.len(), 2);
}
