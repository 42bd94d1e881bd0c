use minotari_multisig::error::CommandError;
use minotari_multisig::keys::PrivateKey;
use minotari_multisig::party::{create_multisig_party_member_output, PartyMember, PartyStep, RandomKeys};
use minotari_multisig::types::{MultisigOutput, Signature, TariAddress, TariKeyAndId, TariKeyId};

fn config(view_key: Option<[u8; 32]>, commitments: Vec<String>) -> MultisigOutput {
    MultisigOutput {
        session_id: "s".to_string(),
        utxos: vec![],
        commitments,
        minimum_signatures: 2,
        parties_public_keys: vec![[1; 32], [2; 32]],
        fee_per_gram: 1,
        value: 3,
        recipient_address: TariAddress { public_view_key: view_key, public_spend_key: [9; 32], encoded: vec![] },
        commitment_mask: PrivateKey::zero(),
    }
}

fn named(name: u8) -> TariKeyAndId {
    TariKeyAndId { key_id: TariKeyId::Named(format!("key {}", name)), pub_key: [name; 32] }
}

fn keys(first: u8) -> RandomKeys {
    RandomKeys {
        script_nonce_key: named(first),
        sender_offset_key: named(first + 1),
        sender_offset_nonce_key: named(first + 2),
    }
}

fn is_named(id: &TariKeyId, name: &str) -> bool {
    matches!(id, TariKeyId::Named(text) if text == name)
}

fn start(commitments: Vec<String>) -> PartyMember {
    match create_multisig_party_member_output(config(Some([8; 32]), commitments), "s".to_string(), &[2; 32]) {
        Ok(party) => party,
        Err(_) => panic!("the key is a party's"),
    }
}

fn next(party: PartyMember) -> PartyMember {
    match party.next() {
        PartyStep::MakeKeys(party) => party,
        PartyStep::Done(_) => panic!("a commitment is left"),
    }
}

fn signature(n: u8) -> Signature {
    Signature { public_nonce: [n; 32], signature: PrivateKey::zero() }
}

#[test]
fn a_party_makes_a_record_for_each_commitment() {
    let mut party = start(vec!["0a".repeat(32), "0b".repeat(32)]);
    assert_eq!(party.view_key, [8; 32]);
    for i in 0u8..2 {
        let made = match next(party).keys_made(keys(10 * (i + 1)), &[2; 32]) {
            Ok(made) => made,
            Err(_) => panic!("the spend key is the party's"),
        };
        let (mask, spend_key) = made.keys();
        assert_eq!((mask.to_bytes(), *spend_key), ([0; 32], [2; 32]));
        let signing = match made.derived([50 + i; 32], TariKeyId::Named(format!("script {}", i))) {
            Ok(Some(signing)) => signing,
            _ => panic!("the commitment is hexadecimal"),
        };
        assert_eq!(signing.message, [10 + i; 32]);
        let (key, view_key) = signing.secret_keys();
        assert!(is_named(key, &format!("key {}", 10 * (i + 1) + 1)));
        assert_eq!(*view_key, [8; 32]);
        party = signing.signed(signature(60 + i), [70 + i; 32]);
    }
    let output = match party.next() {
        PartyStep::Done(output) => output,
        PartyStep::MakeKeys(_) => panic!("no commitment is left"),
    };
    assert_eq!(output.leader.session_id, "s");
    assert_eq!(output.member.session_id, "s");
    assert_eq!(output.leader.member_public_key, [2; 32]);
    assert_eq!(output.member.member_public_key, [2; 32]);
    assert_eq!(output.leader.commitment_signatures.len(), 2);
    assert_eq!(output.member.commitment_signatures.len(), 2);
    let leader = &output.leader.commitment_signatures[1];
    assert_eq!(leader.signature.public_nonce, [61; 32]);
    assert_eq!(leader.ephemeral_pubkey, [51; 32]);
    assert_eq!(leader.dh_shared_secret_public_key, [71; 32]);
    assert_eq!(leader.script_nonce_key, [20; 32]);
    assert_eq!(leader.sender_offset_public_key, [21; 32]);
    assert_eq!(leader.sender_offset_public_nonce_key, [22; 32]);
    let member = &output.member.commitment_signatures[1];
    assert_eq!(member.signature.public_nonce, [61; 32]);
    assert!(is_named(&member.ephemeral_pubkey_id, "script 1"));
    assert!(is_named(&member.script_nonce_key_id, "key 20"));
    assert!(is_named(&member.sender_offset_key, "key 21"));
    assert!(is_named(&member.sender_offset_nonce_key, "key 22"));
}

#[test]
fn a_stranger_is_no_party() {
    let result = create_multisig_party_member_output(config(None, vec![]), "s".to_string(), &[3; 32]);
    assert!(matches!(result, Err(CommandError::PartyMemberNotFound)));
}

#[test]
fn a_recipient_needs_a_view_key() {
    match create_multisig_party_member_output(config(None, vec![]), "s".to_string(), &[2; 32]) {
        Err(CommandError::InvalidArgument(words)) => assert_eq!(words, "Missing public view key"),
        _ => panic!("there is no view key"),
    }
}

#[test]
fn another_spend_key_is_refused() {
    match next(start(vec!["0a".repeat(32)])).keys_made(keys(10), &[1; 32]) {
        Err(CommandError::InvalidArgument(words)) => {
            assert_eq!(words, "Spend key does not match member public key")
        },
        _ => panic!("the spend key is another party's"),
    }
}

fn derive(commitment: &str) -> Result<bool, CommandError> {
    let made = match next(start(vec![commitment.to_string()])).keys_made(keys(10), &[2; 32]) {
        Ok(made) => made,
        Err(_) => panic!("the spend key is the party's"),
    };
    made.derived([50; 32], TariKeyId::Zero).map(|signing| signing.is_some())
}

#[test]
fn a_commitment_is_hexadecimal() {
    match derive("0g") {
        Err(CommandError::InvalidArgument(words)) => assert_eq!(
            words,
            "Invalid commitment hex: Only hexadecimal characters (0-9,a-f) are permitted"
        ),
        _ => panic!("a digit is none"),
    }
    match derive("0") {
        Err(CommandError::InvalidArgument(words)) => {
            assert_eq!(words, "Invalid commitment hex: Hex string lengths must be a multiple of 2")
        },
        _ => panic!("a digit is missing"),
    }
}

#[test]
fn a_commitment_of_another_length_is_not_signed() {
    assert!(matches!(derive("0a0b"), Ok(false)));
    assert!(matches!(derive(&"0a".repeat(32)), Ok(true)));
}

#[test]
fn a_session_without_commitments_needs_no_keys() {
    match start(vec![]).next() {
        PartyStep::Done(output) => assert!(output.leader.commitment_signatures.is_empty()),
        PartyStep::MakeKeys(_) => panic!("there is no commitment"),
    }
}
