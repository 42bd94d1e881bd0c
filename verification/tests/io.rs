use minotari_multisig::io::{
    load_leader_party_output, load_member_party_output, load_multisig_member_signatures, load_multisig_output,
    load_multisig_utxo_encumber, read_multisig_output, save_multisig_member_signatures, save_multisig_output,
    save_multisig_party_output, save_multisig_utxo_encumber,
};
use minotari_multisig::keys::PrivateKey;
use minotari_multisig::types::{
    MemberMultisigSignature, MultisigLeaderPartyOutput, MultisigMemberPartyOutput, MultisigOutput,
    MultisigPartyOutput, TariAddress,
};

fn address(spend_key: [u8; 32]) -> TariAddress {
    TariAddress { public_view_key: None, public_spend_key: spend_key, encoded: vec![] }
}

fn session(session_id: &str) -> MultisigOutput {
    MultisigOutput {
        session_id: session_id.to_string(),
        utxos: vec![],
        commitments: vec!["00".to_string()],
        minimum_signatures: 2,
        parties_public_keys: vec![],
        fee_per_gram: 1,
        value: 3,
        recipient_address: address([1; 32]),
        commitment_mask: PrivateKey::zero(),
    }
}

#[test]
fn a_session_is_loaded_from_where_it_is_saved() {
    let file = save_multisig_output(session("20250102030405"));
    assert_eq!(file.path, "/wallet_data/multisig_output-20250102030405.json");
    assert_eq!(file.contents.commitments, vec!["00"]);
    let loaded = load_multisig_output("20250102030405");
    assert_eq!(loaded.path, file.path);
    assert!(loaded.missing.is_none());
    let read = read_multisig_output("20250102030405");
    assert_eq!(read.path, file.path);
    assert!(read.missing.is_none());
}

#[test]
fn a_party_has_a_file_for_the_leader_and_one_for_itself() {
    let output = MultisigPartyOutput {
        leader: MultisigLeaderPartyOutput {
            session_id: "s".to_string(),
            member_public_key: [0xab; 32],
            commitment_signatures: vec![],
        },
        member: MultisigMemberPartyOutput {
            session_id: "s".to_string(),
            member_public_key: [0xab; 32],
            commitment_signatures: vec![],
        },
    };
    let (leader, member) = save_multisig_party_output(output);
    let hex = "ab".repeat(32);
    assert_eq!(leader.path, format!("/wallet_data/multisig_party_output-leader-s-{}.json", hex));
    assert_eq!(member.path, format!("/wallet_data/multisig_party_output-member-s-{}.json", hex));
    assert_eq!(leader.contents.member_public_key, [0xab; 32]);
    assert_eq!(member.contents.session_id, "s");
    let file = load_leader_party_output("s", &[0xab; 32]);
    assert_eq!(file.path, leader.path);
    assert_eq!(file.missing.unwrap(), format!("Missing leader party file: {}", leader.path));
    let file = load_member_party_output("s", &[0xab; 32]);
    assert_eq!(file.path, member.path);
    assert_eq!(file.missing.unwrap(), format!("Missing member party file: {}", member.path));
}

#[test]
fn transactions_are_loaded_from_where_they_are_saved() {
    let file = save_multisig_utxo_encumber("s", vec![]);
    assert_eq!(file.path, "/wallet_data/multisig_utxo_encumber_outputs-s.json");
    assert!(file.contents.is_empty());
    let loaded = load_multisig_utxo_encumber("s");
    assert_eq!(loaded.path, file.path);
    assert_eq!(
        loaded.missing.unwrap(),
        "Missing multisig encumber outputs file: /wallet_data/multisig_utxo_encumber_outputs-s.json"
    );
}

#[test]
fn signatures_are_loaded_from_where_they_are_saved() {
    let file = save_multisig_member_signatures("s", vec![MemberMultisigSignature::default()], &address([0x0c; 32]));
    let path = format!("/wallet_data/multisig_member_signatures-s-{}.json", "0c".repeat(32));
    assert_eq!(file.path, path);
    assert_eq!(file.contents.len(), 1);
    let loaded = load_multisig_member_signatures("s", &[0x0c; 32]);
    assert_eq!(loaded.path, path);
    assert_eq!(loaded.missing.unwrap(), format!("Missing multisig member signatures file: {}", path));
}

#[test]
fn no_two_files_are_the_same() {
    let paths = vec![
        load_multisig_output("s").path,
        load_multisig_output("t").path,
        load_multisig_utxo_encumber("s").path,
        load_multisig_utxo_encumber("t").path,
        load_leader_party_output("s", &[1; 32]).path,
        load_leader_party_output("s", &[2; 32]).path,
        load_leader_party_output("t", &[1; 32]).path,
        load_member_party_output("s", &[1; 32]).path,
        load_multisig_member_signatures("s", &[1; 32]).path,
        load_multisig_member_signatures("s", &[2; 32]).path,
        load_multisig_member_signatures("t", &[1; 32]).path,
    ];
    for i in 0..paths.len() {
        for j in 0..i {
            assert_ne!(paths[i], paths[j]);
        }
    }
}

#[test]
fn files_are_found_again_by_their_own_names_only() {
    let saved = save_multisig_output(session("a"));
    assert_eq!(load_multisig_output("a").path, saved.path);
    assert_ne!(load_multisig_output("b").path, saved.path);
    let saved = save_multisig_utxo_encumber("a", vec![]);
    assert_eq!(load_multisig_utxo_encumber("a").path, saved.path);
    assert_ne!(load_multisig_utxo_encumber("b").path, saved.path);
    let saved = save_multisig_member_signatures("a", vec![], &address([3; 32]));
    assert_eq!(load_multisig_member_signatures("a", &[3; 32]).path, saved.path);
    assert_ne!(load_multisig_member_signatures("b", &[3; 32]).path, saved.path);
    assert_ne!(load_multisig_member_signatures("a", &[4; 32]).path, saved.path);
}
