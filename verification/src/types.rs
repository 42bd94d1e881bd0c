//! The records that the parties of a multisig session exchange and keep.
use crate::keys::CompressedCommitment;
use crate::keys::CompressedPublicKey;
use crate::keys::FixedHash;
use crate::keys::PrivateKey;
use crate::keys::RistrettoPublicKey;
use crate::script::TariScript;
use vstd::prelude::*;

verus! {

/// The name of a key that the key manager holds.
pub enum TariKeyId {
    /// A key of a branch of the wallet, by its index.
    Managed {
        /// The branch.
        branch: String,
        /// The index.
        index: u64,
    },
    /// The key of value zero.
    Zero,
    /// A key that is named in another way, by the text of its name.
    Named(String),
}

impl Default for TariKeyId {
    fn default() -> (id: Self)
        ensures
            id is Zero,
    {
        TariKeyId::Zero
    }
}

/// A public key with the name of its private key.
pub struct TariKeyAndId {
    /// The name of the private key.
    pub key_id: TariKeyId,
    /// The public key.
    pub pub_key: CompressedPublicKey,
}

/// A Schnorr signature.
#[derive(Clone, Copy)]
pub struct Signature {
    /// The public nonce.
    pub public_nonce: CompressedPublicKey,
    /// The scalar.
    pub signature: PrivateKey,
}

impl Signature {
    /// Whether the signature has the scalar of a signature that was never made.
    pub open spec fn is_blank(self) -> bool {
        self.signature@ == crate::keys::zero_bytes()
    }

    /// Tells whether the signature has the scalar of a signature that was never made.
    pub fn blank(&self) -> (blank: bool)
        ensures
            blank == self.is_blank(),
    {
        let unmade = Signature::default();
        self.signature.same(&unmade.signature)
    }
}

impl Default for Signature {
    fn default() -> (signature: Self)
        ensures
            signature.public_nonce@ == crate::keys::zero_bytes(),
            signature.signature@ == crate::keys::zero_bytes(),
    {
        Signature { public_nonce: RistrettoPublicKey::identity().to_compressed(), signature: PrivateKey::zero() }
    }
}

/// A signature over the message of a multisig script.
pub type CheckSigSchnorrSignature = Signature;

/// A signature made by several parties.
pub struct AggregatedSignature {
    /// The signature.
    pub aggregated_signature: CheckSigSchnorrSignature,
    /// The name of its nonce.
    pub aggregated_nonce: TariKeyId,
    /// The keys of the parties.
    pub public_keys: Vec<CompressedPublicKey>,
}

impl Default for AggregatedSignature {
    fn default() -> (signature: Self)
        ensures
            signature.aggregated_signature.is_blank(),
            signature.aggregated_signature.public_nonce@ == crate::keys::zero_bytes(),
            signature.aggregated_nonce is Zero,
            signature.public_keys@ == Seq::<CompressedPublicKey>::empty(),
    {
        AggregatedSignature {
            aggregated_signature: Signature::default(),
            aggregated_nonce: TariKeyId::default(),
            public_keys: Vec::new(),
        }
    }
}

/// The address of a wallet.
pub struct TariAddress {
    /// The key that finds what is sent to the address. An address of a single key has none.
    pub public_view_key: Option<CompressedPublicKey>,
    /// The key that spends what is sent to the address.
    pub public_spend_key: CompressedPublicKey,
    /// The bytes of the whole address.
    pub encoded: Vec<u8>,
}

impl View for TariAddress {
    type V = (Option<CompressedPublicKey>, CompressedPublicKey, Seq<u8>);

    open spec fn view(&self) -> (Option<CompressedPublicKey>, CompressedPublicKey, Seq<u8>) {
        (self.public_view_key, self.public_spend_key, self.encoded@)
    }
}

impl TariAddress {
    /// A second copy of the address.
    pub fn duplicate(&self) -> (address: Self)
        ensures
            address@ == self@,
    {
        TariAddress {
            public_view_key: self.public_view_key,
            public_spend_key: self.public_spend_key,
            encoded: crate::list::copied(&self.encoded),
        }
    }
}

/// An output as the wallet holds it, as far as the flows read it.
pub struct WalletOutput {
    /// The value in micro Minotari.
    pub value: u64,
    /// The script that spends the output.
    pub script: TariScript,
    /// The value, the mask and the payment id, encrypted.
    pub encrypted_data: Vec<u8>,
}

/// An unspent output of the wallet.
pub struct DbWalletOutput {
    /// The hash of the output.
    pub hash: FixedHash,
    /// The commitment of the output.
    pub commitment: CompressedCommitment,
    /// What the wallet holds of the output.
    pub wallet_output: WalletOutput,
    /// The payment id, as JSON text.
    pub payment_id: Vec<u8>,
    /// The height of the block that the output was mined in.
    pub mined_height: Option<u64>,
}

/// What the leader of a session sends to its parties.
pub struct MultisigOutput {
    /// The name of the session.
    pub session_id: String,
    /// The hashes of the outputs to spend, in hexadecimal.
    pub utxos: Vec<String>,
    /// The commitments of the outputs to spend, in hexadecimal.
    pub commitments: Vec<String>,
    /// How many parties must sign.
    pub minimum_signatures: u8,
    /// The spend keys of the parties.
    pub parties_public_keys: Vec<CompressedPublicKey>,
    /// The fee in micro Minotari per gram.
    pub fee_per_gram: u64,
    /// The value to spend in micro Minotari.
    pub value: u64,
    /// Where the value goes.
    pub recipient_address: TariAddress,
    /// The mask of the commitment of the output to spend.
    pub commitment_mask: PrivateKey,
}

/// What a party makes for a session.
pub struct MultisigPartyOutput {
    /// The part that the leader gets.
    pub leader: MultisigLeaderPartyOutput,
    /// The part that the party keeps.
    pub member: MultisigMemberPartyOutput,
}

/// What a party gives to the leader of a session.
pub struct MultisigLeaderPartyOutput {
    /// The name of the session.
    pub session_id: String,
    /// The spend key of the party.
    pub member_public_key: CompressedPublicKey,
    /// One record for each commitment of the session.
    pub commitment_signatures: Vec<LeaderCommitmentSignature>,
}

/// What a party keeps of a session.
pub struct MultisigMemberPartyOutput {
    /// The name of the session.
    pub session_id: String,
    /// The spend key of the party.
    pub member_public_key: CompressedPublicKey,
    /// One record for each commitment of the session.
    pub commitment_signatures: Vec<MemberCommitmentSignature>,
}

/// What a party gives to the leader for one commitment.
#[derive(Clone, Copy)]
pub struct LeaderCommitmentSignature {
    /// The signature over the commitment.
    pub signature: CheckSigSchnorrSignature,
    /// The key that the signature is made with.
    pub ephemeral_pubkey: CompressedPublicKey,
    /// The secret that the party shares with the recipient.
    pub dh_shared_secret_public_key: CompressedPublicKey,
    /// The nonce of the script signature.
    pub script_nonce_key: CompressedPublicKey,
    /// The sender offset key.
    pub sender_offset_public_key: CompressedPublicKey,
    /// The nonce of the metadata signature.
    pub sender_offset_public_nonce_key: CompressedPublicKey,
}

/// What a party keeps for one commitment.
pub struct MemberCommitmentSignature {
    /// The signature over the commitment.
    pub signature: CheckSigSchnorrSignature,
    /// The nonce of the script signature.
    pub script_nonce_key_id: TariKeyId,
    /// The key that the signature is made with.
    pub ephemeral_pubkey_id: TariKeyId,
    /// The sender offset key.
    pub sender_offset_key: TariKeyId,
    /// The nonce of the metadata signature.
    pub sender_offset_nonce_key: TariKeyId,
}

/// A transaction that waits for the signatures of the parties.
pub struct MultisigEncumberOutput {
    /// Which commitment of the session the transaction spends.
    pub output_index: usize,
    /// The name of the transaction.
    pub tx_id: u64,
    /// The bytes of the input data of the spent output.
    pub input_stack: Vec<u8>,
    /// The bytes of the script of the spent output.
    pub input_script: Vec<u8>,
    /// The sum of the script keys.
    pub total_script_key: CompressedPublicKey,
    /// The ephemeral commitment of the script signature.
    pub script_signature_ephemeral_commitment: CompressedCommitment,
    /// The sum of the script nonces.
    pub script_signature_ephemeral_pubkey: CompressedPublicKey,
    /// The commitment of the new output.
    pub output_commitment: CompressedCommitment,
    /// The sender offset key of the new output.
    pub sender_offset_pubkey: CompressedPublicKey,
    /// The ephemeral commitment of the metadata signature.
    pub metadata_signature_ephemeral_commitment: CompressedCommitment,
    /// The sum of the metadata nonces.
    pub metadata_signature_ephemeral_pubkey: CompressedPublicKey,
    /// The value, the mask and the payment id of the new output, encrypted.
    pub encrypted_data: Vec<u8>,
    /// The bytes of the features of the new output.
    pub output_features: Vec<u8>,
    /// The secret that the parties share with the recipient.
    pub shared_secret: CompressedPublicKey,
}

/// The signatures of one party over one transaction.
#[derive(Clone, Copy)]
pub struct MemberMultisigSignature {
    /// Which commitment of the session the transaction spends.
    pub output_index: usize,
    /// The signature over the input.
    pub script_signature: Signature,
    /// The signature over the output.
    pub metadata_signature: Signature,
    /// The script offset of the party.
    pub script_offset: PrivateKey,
}

impl Default for MemberMultisigSignature {
    fn default() -> (signatures: Self)
        ensures
            signatures.output_index == 0,
            signatures.script_signature.is_blank(),
            signatures.metadata_signature.is_blank(),
            signatures.script_offset@ == crate::keys::zero_bytes(),
    {
        MemberMultisigSignature {
            output_index: 0,
            script_signature: Signature::default(),
            metadata_signature: Signature::default(),
            script_offset: PrivateKey::zero(),
        }
    }
}

/// A signature was never made where its scalar is zero, whatever its nonce is.
pub proof fn law_blank_signature_has_scalar_zero(signature: Signature)
    requires
        signature.signature@.len() == 32,
    ensures
        signature.is_blank() <==> forall|i: int| 0 <= i < 32 ==> #[trigger] signature.signature@[i] == 0,
{
    let bytes = signature.signature@;
    if forall|i: int| 0 <= i < 32 ==> #[trigger] bytes[i] == 0 {
        assert(bytes =~= crate::keys::zero_bytes());
    }
    if signature.is_blank() {
        assert forall|i: int| 0 <= i < 32 implies #[trigger] bytes[i] == 0 by {
            assert(crate::keys::zero_bytes()[i] == 0);
        }
    }
}

} // verus!
