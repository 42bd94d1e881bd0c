use minotari_multisig::keys::PrivateKey;
use minotari_multisig::send::{send_multisig_utxo_by_leader, Finalization, LeaderSending, SendStep};
use minotari_multisig::types::{
    MemberMultisigSignature, MultisigEncumberOutput, MultisigOutput, Signature, TariAddress,
};

fn private(n: u8) -> PrivateKey {
    let mut bytes = [0u8; 32];
    bytes[0] = n;
    PrivateKey::from_canonical_bytes(&bytes).unwrap()
}

fn largest() -> PrivateKey {
    // The group order less one.
    let bytes: [u8; 32] = [
        0xec, 0xd3, 0xf5, 0x5c, 0x1a, 0x63, 0x12, 0x58, 0xd6, 0x9c, 0xf7, 0xa2, 0xde, 0xf9, 0xde, 0x14, 0, 0, 0, 0, 0,
        0, 0, 0, 0, 0, 0, 0, 0, 0, 0, 0x10,
    ];
    PrivateKey::from_canonical_bytes(&bytes).unwrap()
}

fn signature(n: u8) -> Signature {
    Signature { public_nonce: [n; 32], signature: private(n) }
}

fn record(n: u8, script_offset: PrivateKey) -> MemberMultisigSignature {
    MemberMultisigSignature {
        output_index: 0,
        script_signature: signature(n),
        metadata_signature: signature(n + 1),
        script_offset,
    }
}

fn encumber(tx_id: u64) -> MultisigEncumberOutput {
    MultisigEncumberOutput {
        output_index: 0,
        tx_id,
        input_stack: vec![],
        input_script: vec![],
        total_script_key: [0; 32],
        script_signature_ephemeral_commitment: [0; 32],
        script_signature_ephemeral_pubkey: [0; 32],
        output_commitment: [0; 32],
        sender_offset_pubkey: [0; 32],
        metadata_signature_ephemeral_commitment: [0; 32],
        metadata_signature_ephemeral_pubkey: [0; 32],
        encrypted_data: vec![],
        output_features: vec![],
        shared_secret: [0; 32],
    }
}

fn config(parties: Vec<u8>) -> MultisigOutput {
    MultisigOutput {
        session_id: "s".to_string(),
        utxos: vec![],
        commitments: vec![],
        minimum_signatures: 2,
        parties_public_keys: parties.iter().map(|n| [*n; 32]).collect(),
        fee_per_gram: 1,
        value: 3,
        recipient_address: TariAddress { public_view_key: None, public_spend_key: [9; 32], encoded: vec![] },
        commitment_mask: PrivateKey::zero(),
    }
}

// The script key of a party.
fn script_key(member: [u8; 32]) -> [u8; 32] {
    [member[0] + 100; 32]
}

// Collects the signatures that the parties have; a party's script key is derived unless the party is in `keyless`.
fn loaded(
    parties: Vec<u8>,
    signatures: impl Fn(u8) -> Option<Vec<MemberMultisigSignature>>,
    keyless: Vec<u8>,
) -> LeaderSending {
    let mut step = send_multisig_utxo_by_leader(&config(parties), vec![encumber(77), encumber(78)], &[1; 32]);
    loop {
        step = match step {
            SendStep::LoadSignatures(load) => {
                let member = load.member();
                load.loaded(signatures(member[0]))
            },
            SendStep::DeriveKey(derivation) => {
                let member = derivation.member();
                derivation.derived(if keyless.contains(&member[0]) { None } else { Some(script_key(member)) })
            },
            SendStep::Loaded(state) => return state,
            _ => panic!("nothing is sent yet"),
        };
    }
}

// Completes the transaction for every party until one cannot be completed, and gives what it was completed with.
fn sent(state: LeaderSending, fails: Vec<usize>) -> Vec<(usize, u64, Vec<u8>, Vec<u8>, [u8; 32])> {
    let mut requests = Vec::new();
    let mut step = state.send();
    loop {
        step = match step {
            SendStep::FindKey(lookup) => {
                let member = lookup.member();
                lookup.found(Some(script_key(member)))
            },
            SendStep::Finalize(request) => {
                let Finalization { index, tx_id, .. } = request;
                let metadata = request.metadata_signatures.iter().map(|s| s.public_nonce[0]).collect();
                let script = request.script_signatures.iter().map(|s| s.public_nonce[0]).collect();
                requests.push((index, tx_id, metadata, script, request.script_offset.to_bytes()));
                request.finalized(!fails.contains(&index))
            },
            SendStep::Done => return requests,
            _ => panic!("all is loaded"),
        };
    }
}

#[test]
fn the_transaction_is_completed_for_every_other_party() {
    let state = loaded(vec![2, 1, 3], |n| Some(vec![record(n, private(n)), record(n + 10, private(5))]), vec![]);
    assert_eq!(state.members, vec![[2; 32], [3; 32]]);
    assert_eq!(
        sent(state, vec![]),
        vec![
            (0, 77, vec![3, 13], vec![2, 12], private(7).to_bytes()),
            (1, 77, vec![4, 14], vec![3, 13], private(8).to_bytes()),
        ]
    );
}

#[test]
fn offsets_are_added_modulo_the_group_order() {
    let state = loaded(vec![2], |n| Some(vec![record(n, largest()), record(n, private(3))]), vec![]);
    assert_eq!(sent(state, vec![])[0].4, private(2).to_bytes());
}

#[test]
fn a_party_without_signatures_is_left_out() {
    let state = loaded(vec![2, 3], |n| if n == 3 { Some(vec![]) } else { None }, vec![]);
    assert_eq!(sent(state, vec![]), vec![(1, 77, vec![], vec![], [0; 32])]);
}

#[test]
fn a_party_without_a_script_key_is_left_out() {
    let state = loaded(vec![2, 3], |_| Some(vec![]), vec![2]);
    assert_eq!(sent(state, vec![]).iter().map(|r| r.0).collect::<Vec<_>>(), vec![1]);
    let state = loaded(vec![2, 3], |_| Some(vec![]), vec![]);
    match state.send() {
        SendStep::FindKey(lookup) => match lookup.found(None) {
            SendStep::FindKey(next) => assert_eq!(next.index, 1),
            _ => panic!("the next party follows"),
        },
        _ => panic!("the first party comes first"),
    }
}

#[test]
fn no_party_follows_one_that_failed() {
    let state = loaded(vec![2, 3, 4], |_| Some(vec![]), vec![]);
    assert_eq!(sent(state, vec![1]).iter().map(|r| r.0).collect::<Vec<_>>(), vec![0, 1]);
}

#[test]
fn a_leader_alone_has_nothing_to_send() {
    let state = loaded(vec![1, 1], |_| Some(vec![]), vec![]);
    assert!(sent(state, vec![]).is_empty());
}
