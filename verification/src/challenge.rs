//! The challenges that the parties of a transaction sign.
use crate::keys::CompressedCommitment;
use crate::keys::CompressedPublicKey;
use tari_common_types::types::CompressedCommitment as TariCompressedCommitment;
use tari_common_types::types::CompressedPublicKey as TariCompressedPublicKey;
use tari_script::ExecutionStack;
use tari_script::TariScript as OutsideScript;
use tari_transaction_components::transaction_components::covenants::Covenant;
use tari_transaction_components::transaction_components::EncryptedData;
use tari_transaction_components::transaction_components::OutputFeatures;
use tari_transaction_components::transaction_components::TransactionInput;
use tari_transaction_components::transaction_components::TransactionInputVersion;
use tari_transaction_components::transaction_components::TransactionOutput;
use tari_transaction_components::transaction_components::TransactionOutputVersion;
use tari_transaction_components::MicroMinotari;
use tari_utilities::ByteArray;
use vstd::prelude::*;

verus! {

/// Whether bytes are those of a script.
pub uninterp spec fn readable_script(bytes: Seq<u8>) -> bool;

/// Whether bytes are those of a script's input data.
pub uninterp spec fn readable_stack(bytes: Seq<u8>) -> bool;

/// Whether bytes are those of an output's features.
pub uninterp spec fn readable_features(bytes: Seq<u8>) -> bool;

/// Whether bytes have the length of an output's encrypted data: 80 bytes for the nonce, the value, the mask and the
/// tag, and at most 256 for the payment id.
pub open spec fn readable_data(bytes: Seq<u8>) -> bool {
    80 <= bytes.len() <= 336
}

/// The challenge of a script signature, by the networks that the hashes are made for, the ephemeral commitment, the
/// ephemeral key, the bytes of the script and of its input data, the script key and the commitment.
pub uninterp spec fn script_hash(
    networks: Seq<u8>,
    ephemeral_commitment: Seq<u8>,
    ephemeral_pubkey: Seq<u8>,
    script: Seq<u8>,
    input_data: Seq<u8>,
    script_public_key: Seq<u8>,
    commitment: Seq<u8>,
) -> Seq<u8>;

/// The challenge of a metadata signature, by the networks that the hashes are made for, the key of the script, the
/// bytes of the features, the sender offset key, the ephemeral commitment, the ephemeral key, the commitment, the
/// bytes of the encrypted data and the least value that is promised.
pub uninterp spec fn metadata_hash(
    networks: Seq<u8>,
    script_key: Seq<u8>,
    features: Seq<u8>,
    sender_offset_public_key: Seq<u8>,
    ephemeral_commitment: Seq<u8>,
    ephemeral_pubkey: Seq<u8>,
    commitment: Seq<u8>,
    encrypted_data: Seq<u8>,
    minimum_value_promise: u64,
) -> Seq<u8>;

/// What a script signature is made over.
pub struct ScriptSigned<'a> {
    /// The ephemeral commitment of the signature.
    pub ephemeral_commitment: CompressedCommitment,
    /// The sum of all nonces of the signature.
    pub ephemeral_pubkey: CompressedPublicKey,
    /// The bytes of the script of the spent output.
    pub script: &'a Vec<u8>,
    /// The bytes of the input data of the spent output.
    pub input_data: &'a Vec<u8>,
    /// The sum of all script keys.
    pub script_public_key: CompressedPublicKey,
    /// The commitment of the spent output.
    pub commitment: CompressedCommitment,
}

/// What a metadata signature is made over. The covenant is the default one.
pub struct MetadataSigned<'a> {
    /// The key of the script of the new output.
    pub script_key: CompressedPublicKey,
    /// The bytes of the features of the new output.
    pub features: &'a Vec<u8>,
    /// The sender offset key of the new output.
    pub sender_offset_public_key: CompressedPublicKey,
    /// The ephemeral commitment of the signature.
    pub ephemeral_commitment: CompressedCommitment,
    /// The sum of all nonces of the signature.
    pub ephemeral_pubkey: CompressedPublicKey,
    /// The commitment of the new output.
    pub commitment: CompressedCommitment,
    /// The bytes of the encrypted data of the new output.
    pub encrypted_data: &'a Vec<u8>,
    /// The least value that the new output promises.
    pub minimum_value_promise: u64,
}

/// Calls `TransactionInput::build_script_signature_challenge` of `tari_transaction_components` for the current
/// version, on the script and the input data that `TariScript::from_bytes` and `ExecutionStack::from_bytes` of
/// `tari_script` read. Whether they read them is named `readable_script` and `readable_stack`. The challenge is
/// hashed for the network that is set when it is made, so it is `script_hash` for some networks.
#[verifier::external_body]
pub(crate) fn hash_script_signature(signed: &ScriptSigned<'_>) -> (r: Option<[u8; 64]>)
    ensures
        r is Some <==> (readable_script(signed.script@) && readable_stack(signed.input_data@)),
        r is Some ==> exists|networks: Seq<u8>|
            r->Some_0@ == #[trigger] script_hash(
                networks,
                signed.ephemeral_commitment@,
                signed.ephemeral_pubkey@,
                signed.script@,
                signed.input_data@,
                signed.script_public_key@,
                signed.commitment@,
            ),
{
    Some(TransactionInput::build_script_signature_challenge(
        &TransactionInputVersion::get_current_version(),
        &TariCompressedCommitment::from_canonical_bytes(&signed.ephemeral_commitment).expect("32 bytes"),
        &TariCompressedPublicKey::new(&signed.ephemeral_pubkey),
        &OutsideScript::from_bytes(signed.script).ok()?,
        &ExecutionStack::from_bytes(signed.input_data).ok()?,
        &TariCompressedPublicKey::new(&signed.script_public_key),
        &TariCompressedCommitment::from_canonical_bytes(&signed.commitment).expect("32 bytes"),
    ))
}

/// Calls `TransactionOutput::build_metadata_signature_challenge` of `tari_transaction_components` for the current
/// version and the default covenant, on the script that `push_pubkey_script` of `tari_script` makes and on the
/// features and the encrypted data that `borsh::from_slice` and `EncryptedData::from_bytes` read. Whether they read
/// the features is named `readable_features`; encrypted data is read if it has a right length. The challenge is hashed
/// for the network that is set when it is made, so it is `metadata_hash` for some networks.
#[verifier::external_body]
pub(crate) fn hash_metadata_signature(signed: &MetadataSigned<'_>) -> (r: Option<[u8; 64]>)
    ensures
        r is Some <==> (readable_features(signed.features@) && readable_data(signed.encrypted_data@)),
        r is Some ==> exists|networks: Seq<u8>|
            r->Some_0@ == #[trigger] metadata_hash(
                networks,
                signed.script_key@,
                signed.features@,
                signed.sender_offset_public_key@,
                signed.ephemeral_commitment@,
                signed.ephemeral_pubkey@,
                signed.commitment@,
                signed.encrypted_data@,
                signed.minimum_value_promise,
            ),
{
    Some(TransactionOutput::build_metadata_signature_challenge(
        &TransactionOutputVersion::get_current_version(),
        &tari_script::push_pubkey_script(&TariCompressedPublicKey::new(&signed.script_key)),
        &borsh::from_slice::<OutputFeatures>(signed.features).ok()?,
        &TariCompressedPublicKey::new(&signed.sender_offset_public_key),
        &TariCompressedCommitment::from_canonical_bytes(&signed.ephemeral_commitment).expect("32 bytes"),
        &TariCompressedPublicKey::new(&signed.ephemeral_pubkey),
        &TariCompressedCommitment::from_canonical_bytes(&signed.commitment).expect("32 bytes"),
        &Covenant::default(),
        &EncryptedData::from_bytes(signed.encrypted_data).ok()?,
        MicroMinotari::from(signed.minimum_value_promise),
    ))
}

} // verus!
