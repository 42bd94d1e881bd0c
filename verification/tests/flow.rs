use minotari_multisig::collect::{collect_multisig_utxo_encumber, CollectStep, EncumberStep, TransactionParts};
use minotari_multisig::encumber::{encumber_named_utxo, FetchedOutput};
use minotari_multisig::error::CommandError;
use minotari_multisig::keys::PrivateKey;
use minotari_multisig::party::{create_multisig_party_member_output, PartyStep, RandomKeys};
use minotari_multisig::script::{find_multisig_components, TariScript};
use minotari_multisig::send::{send_multisig_utxo_by_leader, SendStep};
use minotari_multisig::session::{
    create_named_multisig_output, make_utxo_multisig, BuildStep, BuiltUtxo, CreateMultisigUtxoTransferLeaderArgs,
};
use minotari_multisig::sign::{sign_multisig_utxo_by_member, SignStep};
use minotari_multisig::types::{
    DbWalletOutput, MemberMultisigSignature, MultisigEncumberOutput, MultisigOutput, MultisigPartyOutput, Signature,
    TariAddress, TariKeyAndId, TariKeyId, WalletOutput,
};
use minotari_multisig::weight::TransactionWeight;
use tari_common_types::types::{
    CommitmentFactory, CompressedCommitment, PrivateKey as TariPrivateKey, UncompressedPublicKey,
};
use tari_crypto::commitment::HomomorphicCommitmentFactory;
use tari_crypto::keys::PublicKey;
use tari_transaction_components::transaction_components::memo_field::MemoField;
use tari_transaction_components::transaction_components::EncryptedData;
use tari_transaction_components::MicroMinotari;
use tari_utilities::hex::to_hex;
use tari_utilities::ByteArray;

// The leader's spend key is the 21st and the party's the 22nd; their script keys are the first and the second.

fn scalar(n: u8) -> [u8; 32] {
    let mut bytes = [0u8; 32];
    bytes[0] = n;
    bytes
}

fn tari_scalar(n: u8) -> TariPrivateKey {
    TariPrivateKey::from_canonical_bytes(&scalar(n)).unwrap()
}

fn private(n: u8) -> PrivateKey {
    PrivateKey::from_canonical_bytes(&scalar(n)).unwrap()
}

fn key(n: u8) -> [u8; 32] {
    UncompressedPublicKey::from_secret_key(&tari_scalar(n)).as_bytes().try_into().unwrap()
}

fn commitment(mask: u8, value: u64) -> [u8; 32] {
    CommitmentFactory::default().commit_value(&tari_scalar(mask), value).as_bytes().try_into().unwrap()
}

fn signature(n: u8) -> Signature {
    Signature { public_nonce: key(n), signature: private(n) }
}

fn address(n: u8) -> TariAddress {
    TariAddress { public_view_key: Some(key(n + 1)), public_spend_key: key(n), encoded: vec![n] }
}

fn encrypted(encryption_key: &PrivateKey, mask: u8, value: u64) -> Vec<u8> {
    EncryptedData::encrypt_data(
        &TariPrivateKey::from_canonical_bytes(&encryption_key.to_bytes()).unwrap(),
        &CompressedCommitment::from_canonical_bytes(&commitment(mask, value)).unwrap(),
        MicroMinotari::from(value),
        &tari_scalar(mask),
        MemoField::new_empty(),
    )
    .unwrap()
    .as_bytes()
    .to_vec()
}

fn ok<T>(result: Result<T, CommandError>) -> T {
    match result {
        Ok(value) => value,
        Err(e) => panic!("{:?}", e),
    }
}

fn plain_output(value: u64) -> DbWalletOutput {
    DbWalletOutput {
        hash: [0; 32],
        commitment: [0; 32],
        wallet_output: WalletOutput { value, script: TariScript { script: vec![] }, encrypted_data: vec![] },
        payment_id: vec![],
        mined_height: None,
    }
}

fn made() -> BuiltUtxo {
    let mut building = make_utxo_multisig(&plain_output(1000), 2, 2, vec![key(21), key(22)]);
    loop {
        building = match building.next() {
            BuildStep::DeriveKey(building, party) => {
                let derived = if party == key(21) { key(1) } else { key(2) };
                building.derived(derived)
            },
            BuildStep::Derived(building) => return ok(building.build(&commitment(7, 1000))),
        };
    }
}

fn multisig_utxo() -> DbWalletOutput {
    let built = made();
    DbWalletOutput {
        hash: [5; 32],
        commitment: commitment(7, 1000),
        wallet_output: WalletOutput {
            value: built.value,
            encrypted_data: encrypted(&built.recovery_key, 7, 1000),
            script: built.script,
        },
        payment_id: vec![],
        mined_height: Some(9),
    }
}

fn session() -> MultisigOutput {
    let args = CreateMultisigUtxoTransferLeaderArgs {
        utxo_commitment_hash: to_hex(&commitment(7, 1000)),
        m: 2,
        public_keys: vec![key(21), key(22)],
        recipient_address: address(90),
    };
    ok(create_named_multisig_output("s".to_string(), &[plain_output(3), multisig_utxo()], args))
}

fn named(n: u8) -> TariKeyAndId {
    TariKeyAndId { key_id: TariKeyId::Named(n.to_string()), pub_key: key(n) }
}

fn party() -> MultisigPartyOutput {
    let mut party = ok(create_multisig_party_member_output(session(), "s".to_string(), &key(22)));
    loop {
        party = match party.next() {
            PartyStep::MakeKeys(party) => {
                let keys = RandomKeys {
                    script_nonce_key: named(30),
                    sender_offset_key: named(31),
                    sender_offset_nonce_key: named(32),
                };
                let derivation = ok(party.keys_made(keys, &key(22)));
                let signing = ok(derivation.derived(key(2), TariKeyId::Named("2".to_string()))).unwrap();
                assert_eq!(signing.message, commitment(7, 1000));
                signing.signed(signature(42), key(33))
            },
            PartyStep::Done(output) => return output,
        };
    }
}

#[test]
fn a_party_signs_with_its_key_in_the_script() {
    let (keys, _) = match find_multisig_components(&multisig_utxo().wallet_output.script) {
        Some(components) => components,
        None => panic!("a multisig script"),
    };
    let output = party();
    assert_eq!(output.leader.commitment_signatures.len(), 1);
    assert_eq!(output.leader.commitment_signatures[0].ephemeral_pubkey, keys[1]);
    assert_eq!(output.leader.commitment_signatures[0].signature.public_nonce, key(42));
    assert!(matches!(&output.member.commitment_signatures[0].ephemeral_pubkey_id, TariKeyId::Named(n) if n == "2"));
}

fn encumbered() -> Vec<MultisigEncumberOutput> {
    let mut step = collect_multisig_utxo_encumber(session(), address(21));
    let collection = loop {
        step = match step {
            CollectStep::LoadParty(load) => {
                assert_eq!(load.party, key(22));
                ok(load.loaded(Some(party().leader)))
            },
            CollectStep::FetchOutputs(collection) => break collection,
        };
    };
    let (state, request) = match ok(collection.fetched(vec![plain_output(3), multisig_utxo()])) {
        EncumberStep::Encumber(state, request) => (state, request),
        EncumberStep::Done(_) => panic!("a commitment is left"),
    };
    let utxo = multisig_utxo();
    let output = FetchedOutput {
        commitment: utxo.commitment,
        script: utxo.wallet_output.script,
        encrypted_data: utxo.wallet_output.encrypted_data,
    };
    let signed = ok(ok(encumber_named_utxo(request, 77, vec![output])).add_own_signature(key(1), signature(41)));
    // The party's signature is used, in the order of the script.
    assert_eq!(signed.signatures[0].public_nonce, key(41));
    assert_eq!(signed.signatures[1].public_nonce, key(42));
    let spend = signed.plan(TransactionWeight {
        kernel_weight: 10,
        input_weight: 8,
        output_weight: 53,
        features_and_scripts_bytes_per_gram: 16,
    });
    assert_eq!(spend.amount, 925);
    let shared = ok(ok(ok(spend.confirmed(Ok(()))).request_secret(Ok(Some(TariKeyId::Zero)))).add_own_secret(key(50)));
    let encrypted_data = encrypted(&shared.encryption_key, 8, 925);
    let nonces = ok(ok(shared.add_own_sender_offset(key(51))).add_metadata_nonces());
    let nonces = ok(ok(nonces.add_own_nonce(key(52))).add_script_nonces());
    let updated = ok(nonces.add_own_nonce(key(53), key(3)));
    let finished =
        ok(updated.finish(75, &[commitment(8, 925)], &[commitment(7, 1000)], &[key(60)], vec![[9; 32]]));
    let transaction = ok(finished.recorded(Ok(())));
    let parts = TransactionParts {
        input_stack: vec![],
        input_script: vec![],
        script_signature_ephemeral_commitment: key(61),
        output_commitment: commitment(8, 925),
        sender_offset_pubkey: key(82),
        metadata_signature_ephemeral_commitment: key(62),
        encrypted_data,
        output_features: vec![],
    };
    match ok(state.encumbered(Some((transaction, parts)))) {
        EncumberStep::Done(outputs) => outputs,
        EncumberStep::Encumber(..) => panic!("no commitment is left"),
    }
}

fn signed() -> Vec<MemberMultisigSignature> {
    let mut state = sign_multisig_utxo_by_member(session(), party().member, encumbered());
    loop {
        let signing = match ok(state.next()) {
            SignStep::SignScript(signing) => signing,
            SignStep::Done(signatures) => return signatures,
            _ => panic!("the input comes first"),
        };
        assert_eq!(signing.commitment, commitment(7, 1000));
        let check = match signing.signed(Some(signature(70))) {
            SignStep::VerifyMask(check) => check,
            _ => panic!("the party opens what the leader encrypted"),
        };
        assert_eq!((check.value, check.mask.to_bytes()), (925, scalar(8)));
        let signing = match check.checked(true) {
            SignStep::SignOutput(signing) => signing,
            _ => panic!("the mask was verified"),
        };
        state = match signing.signed(Some(signature(71)), private(72)) {
            SignStep::Signed(state) => state,
            _ => panic!("the signatures were made"),
        };
    }
}

#[test]
fn a_session_goes_from_the_output_to_the_last_signature() {
    let outputs = encumbered();
    assert_eq!(outputs.len(), 1);
    assert_eq!((outputs[0].output_index, outputs[0].tx_id), (0, 77));
    // The sums of the party's share and the leader's own.
    assert_eq!(outputs[0].shared_secret, key(83));
    assert_eq!(outputs[0].metadata_signature_ephemeral_pubkey, key(84));
    assert_eq!(outputs[0].script_signature_ephemeral_pubkey, key(83));

    let mut step = send_multisig_utxo_by_leader(&session(), outputs, &key(21));
    let mut completed = 0;
    loop {
        step = match step {
            SendStep::LoadSignatures(load) => {
                assert_eq!(load.member(), key(22));
                load.loaded(Some(signed()))
            },
            SendStep::DeriveKey(derivation) => derivation.derived(Some(key(2))),
            SendStep::Loaded(state) => state.send(),
            SendStep::FindKey(lookup) => lookup.found(Some(key(2))),
            SendStep::Finalize(request) => {
                assert_eq!(request.tx_id, 77);
                assert_eq!(request.script_signatures.len(), 1);
                assert_eq!(request.script_signatures[0].public_nonce, key(70));
                assert_eq!(request.metadata_signatures[0].public_nonce, key(71));
                assert_eq!(request.script_offset.to_bytes(), scalar(72));
                completed += 1;
                request.finalized(true)
            },
            SendStep::Done => break,
        };
    }
    assert_eq!(completed, 1);
}
