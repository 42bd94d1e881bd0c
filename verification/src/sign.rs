//! A party's part: signing the transactions that the leader has started.
use crate::challenge::hash_metadata_signature;
use crate::challenge::hash_script_signature;
use crate::challenge::metadata_hash;
use crate::challenge::readable_data;
use crate::challenge::readable_features;
use crate::challenge::readable_script;
use crate::challenge::readable_stack;
use crate::challenge::script_hash;
use crate::challenge::MetadataSigned;
use crate::challenge::ScriptSigned;
use crate::collect::EncumberStep;
use crate::collect::Encumbering;
use crate::collect::TransactionParts;
use crate::crypto::decrypt_data;
use crate::crypto::decryption;
use crate::crypto::encryption_key_of_secret;
use crate::crypto::shared_secret_encryption_key;
use crate::encumber::is_invalid_argument;
use crate::encumber::EncumberRequest;
use crate::encumber::EncumberedTransaction;
use crate::encumber::FetchedOutput;
use crate::encumber::FinishedTransaction;
use crate::encumber::UpdatedInput;
use crate::encumber::WalletReplies;
use crate::error::CommandError;
use crate::hex::commitment_from_hex;
use crate::hex::commitment_of;
use crate::hex::hex_text;
use crate::hex::law_hex_text_is_read_back;
use crate::keys::point_add;
use crate::keys::valid_point;
use crate::keys::zero_bytes;
use crate::keys::CompressedCommitment;
use crate::keys::CompressedPublicKey;
use crate::keys::PrivateKey;
use crate::keys::RistrettoPublicKey;
use crate::party::is_part;
use crate::party::law_what_is_given_belongs_to_what_is_kept;
use crate::party::PartyMember;
use crate::party::PartyRound;
use crate::script::point_sum;
use crate::text::joined;
use crate::types::CheckSigSchnorrSignature;
use crate::types::MemberCommitmentSignature;
use crate::types::MemberMultisigSignature;
use crate::types::MultisigEncumberOutput;
use crate::types::MultisigMemberPartyOutput;
use crate::types::MultisigOutput;
use crate::types::MultisigPartyOutput;
use crate::types::Signature;
use crate::types::TariKeyId;
use crate::utxo::law_first_with_commitment;
use vstd::prelude::*;

verus! {

/// The transactions that a party has signed so far.
pub struct MemberSigning {
    /// The session.
    pub config: MultisigOutput,
    /// What the party keeps of the session.
    pub member: MultisigMemberPartyOutput,
    /// The transactions to sign.
    pub encumbers: Vec<MultisigEncumberOutput>,
    /// The signatures, one record for each of the leading transactions.
    pub signatures: Vec<MemberMultisigSignature>,
}

/// What a party asks the wallet for while signing.
pub enum SignStep {
    /// To sign the input of a transaction.
    SignScript(ScriptSigning),
    /// To import the mask of the new output, and to verify it.
    VerifyMask(MaskCheck),
    /// To sign the new output of a transaction.
    SignOutput(OutputSigning),
    /// Nothing: the transaction is signed.
    Signed(MemberSigning),
    /// Nothing: these are the signatures.
    Done(Vec<MemberMultisigSignature>),
}

/// Whether records are in order: each has its position as its index, and signatures that were made.
pub open spec fn in_order(signatures: Seq<MemberMultisigSignature>) -> bool {
    forall|k: int|
        0 <= k < signatures.len() ==> {
            &&& (#[trigger] signatures[k]).output_index == k
            &&& !signatures[k].script_signature.is_blank()
            &&& !signatures[k].metadata_signature.is_blank()
        }
}

impl MemberSigning {
    /// The position of the transaction that comes next.
    pub open spec fn index(self) -> int {
        self.signatures@.len() as int
    }

    /// Whether there is no transaction left.
    pub open spec fn is_complete(self) -> bool {
        self.index() >= self.encumbers@.len()
    }

    /// Whether there is a record and a commitment for the transaction that comes next.
    pub open spec fn is_covered(self) -> bool {
        self.is_complete() || (self.index() < self.member.commitment_signatures@.len() && self.index()
            < self.config.commitments@.len())
    }

    /// The transaction that comes next.
    pub open spec fn encumber(self) -> MultisigEncumberOutput {
        self.encumbers@[self.index()]
    }

    /// The party's record for the transaction that comes next.
    pub open spec fn record(self) -> MemberCommitmentSignature {
        self.member.commitment_signatures@[self.index()]
    }

    /// What the new output of the transaction that comes next holds, opened with the shared secret.
    pub open spec fn opened(self) -> Option<(u64, Seq<u8>, Seq<u8>)> {
        let encumber = self.encumber();
        if valid_point(encumber.shared_secret@) {
            decryption(
                shared_secret_encryption_key(encumber.shared_secret@),
                encumber.output_commitment@,
                encumber.encrypted_data@,
            )
        } else {
            None
        }
    }
}

/// Whether a state is where a party starts signing the transactions of a session: with nothing signed.
pub open spec fn is_signing(
    config: MultisigOutput,
    member: MultisigMemberPartyOutput,
    encumbers: Vec<MultisigEncumberOutput>,
    state: MemberSigning,
) -> bool {
    &&& state.config == config
    &&& state.member == member
    &&& state.encumbers == encumbers
    &&& state.signatures@ == Seq::<MemberMultisigSignature>::empty()
    &&& in_order(state.signatures@)
}

/// Starts signing the transactions of a session.
pub fn sign_multisig_utxo_by_member(
    config: MultisigOutput,
    member: MultisigMemberPartyOutput,
    encumbers: Vec<MultisigEncumberOutput>,
) -> (state: MemberSigning)
    ensures
        is_signing(config, member, encumbers, state),
{
    MemberSigning { config, member, encumbers, signatures: Vec::new() }
}

/// A party signs the input of a transaction.
pub struct ScriptSigning {
    /// The transactions that the party has signed so far.
    pub state: MemberSigning,
    /// The commitment of the spent output.
    pub commitment: CompressedCommitment,
}

impl ScriptSigning {
    /// Whether there is a transaction to sign with a record, and its commitment is that of the session.
    pub open spec fn is_valid(self) -> bool {
        &&& !self.state.is_complete()
        &&& self.state.is_covered()
        &&& commitment_of(self.state.config.commitments@[self.state.index()]@) == Ok::<Seq<u8>, Seq<char>>(
            self.commitment@,
        )
    }
}

impl MemberSigning {
    /// Whether a result is what comes next: the signatures when there is no transaction left, the request for the
    /// signature over the next input, or the error that the next commitment cannot be read.
    pub open spec fn is_next(self, r: Result<SignStep, CommandError>) -> bool {
        match r {
            Ok(SignStep::Done(signatures)) => self.is_complete() && signatures == self.signatures,
            Ok(SignStep::SignScript(signing)) => signing.state == self && signing.is_valid(),
            Ok(_) => false,
            Err(e) => {
                &&& !self.is_complete()
                &&& commitment_of(self.config.commitments@[self.index()]@) matches Err(words)
                    && is_invalid_argument(e, "Invalid commitment hex: "@ + words)
            },
        }
    }

    /// Asks for the signature over the input of the transaction that comes next.
    pub fn next(self) -> (r: Result<SignStep, CommandError>)
        requires
            self.is_covered(),
        ensures
            self.is_next(r),
            forall|bytes: Seq<u8>|
                !self.is_complete() && bytes.len() == 32 && #[trigger] hex_text(bytes)
                    == self.config.commitments@[self.index()]@ ==> (r matches Ok(SignStep::SignScript(signing))
                    && signing.commitment@ == bytes),
    {
        proof {
            let text = self.config.commitments@[self.index()]@;
            assert forall|bytes: Seq<u8>| bytes.len() == 32 && #[trigger] hex_text(bytes) == text implies commitment_of(
                text,
            ) == Ok::<Seq<u8>, Seq<char>>(bytes) by {
                law_hex_text_is_read_back(bytes);
            }
        }
        let index = self.signatures.len();
        if index >= self.encumbers.len() {
            return Ok(SignStep::Done(self.signatures));
        }
        match commitment_from_hex(self.config.commitments[index].as_str()) {
            Ok(commitment) => Ok(SignStep::SignScript(ScriptSigning { state: self, commitment })),
            Err(words) => Err(
                CommandError::InvalidArgument(joined("Invalid commitment hex: ", words.as_str())),
            ),
        }
    }
}

impl ScriptSigning {
    /// Whether the input is signed with a named key and a named nonce.
    pub open spec fn are_keys(self, key: TariKeyId, nonce: TariKeyId) -> bool {
        &&& key == self.state.record().ephemeral_pubkey_id
        &&& nonce == self.state.record().script_nonce_key_id
    }

    /// The names of the key and of the nonce to sign with.
    pub fn keys(&self) -> (keys: (&TariKeyId, &TariKeyId))
        requires
            !self.state.is_complete(),
            self.state.is_covered(),
        ensures
            self.are_keys(*keys.0, *keys.1),
    {
        let record = &self.state.member.commitment_signatures[self.state.signatures.len()];
        (&record.ephemeral_pubkey_id, &record.script_nonce_key_id)
    }

    /// Whether a result is the challenge over the input of the transaction, or nothing where the record of the transaction
    /// holds no script or no input data.
    pub open spec fn is_challenge(self, r: Option<[u8; 64]>) -> bool {
        &&& r is Some <==> readable_script(self.state.encumber().input_script@) && readable_stack(
            self.state.encumber().input_stack@,
        )
        &&& r matches Some(challenge) ==> exists|networks: Seq<u8>|
            challenge@ == #[trigger] script_hash(
                networks,
                self.state.encumber().script_signature_ephemeral_commitment@,
                self.state.encumber().script_signature_ephemeral_pubkey@,
                self.state.encumber().input_script@,
                self.state.encumber().input_stack@,
                self.state.encumber().total_script_key@,
                self.commitment@,
            )
    }

    /// The challenge to sign. There is none where the record of the transaction holds no script or no input data.
    pub fn challenge(&self) -> (r: Option<[u8; 64]>)
        requires
            !self.state.is_complete(),
        ensures
            self.is_challenge(r),
    {
        let encumber = &self.state.encumbers[self.state.signatures.len()];
        let r = hash_script_signature(
            &ScriptSigned {
                ephemeral_commitment: encumber.script_signature_ephemeral_commitment,
                ephemeral_pubkey: encumber.script_signature_ephemeral_pubkey,
                script: &encumber.input_script,
                input_data: &encumber.input_stack,
                script_public_key: encumber.total_script_key,
                commitment: self.commitment,
            },
        );
        assert(*encumber == self.state.encumber());
        r
    }

    /// Whether a step is the one that follows the signature over the input: the check of the new output's mask, or the
    /// end where there is no signature or the new output cannot be opened.
    pub open spec fn is_followed(self, signature: Option<Signature>, step: SignStep) -> bool {
        match step {
            SignStep::VerifyMask(check) => {
                &&& check.state == self.state
                &&& signature == Some(check.script_signature)
                &&& self.state.opened() matches Some(secrets) && check.value == secrets.0 && check.mask@ == secrets.1
            },
            SignStep::Done(signatures) => {
                &&& signature is None || self.state.opened() is None
                &&& signatures == self.state.signatures
            },
            _ => false,
        }
    }

    /// Takes the signature over the input, and opens the new output. Without a signature, or where the new
    /// output cannot be opened, the party is done with what it has signed before.
    pub fn signed(self, signature: Option<Signature>) -> (step: SignStep)
        requires
            !self.state.is_complete(),
        ensures
            self.is_followed(signature, step),
    {
        let script_signature = match signature {
            Some(signature) => signature,
            None => {
                return SignStep::Done(self.state.signatures);
            },
        };
        let index = self.state.signatures.len();
        let encumber = &self.state.encumbers[index];
        let secret = match RistrettoPublicKey::from_compressed(&encumber.shared_secret) {
            Ok(secret) => secret,
            Err(_) => {
                return SignStep::Done(self.state.signatures);
            },
        };
        let encryption_key = encryption_key_of_secret(&secret);
        match decrypt_data(&encryption_key, &encumber.output_commitment, encumber.encrypted_data.as_slice()) {
            Some(secrets) => SignStep::VerifyMask(
                MaskCheck { state: self.state, script_signature, value: secrets.value, mask: secrets.mask },
            ),
            None => SignStep::Done(self.state.signatures),
        }
    }
}

/// A party verifies the mask of the new output of a transaction.
pub struct MaskCheck {
    /// The transactions that the party has signed so far.
    pub state: MemberSigning,
    /// The signature over the input.
    pub script_signature: Signature,
    /// The value of the new output.
    pub value: u64,
    /// The mask of the new output.
    pub mask: PrivateKey,
}

impl MaskCheck {
    /// Whether a commitment is the one whose mask is verified.
    pub open spec fn is_output(self, commitment: CompressedCommitment) -> bool {
        commitment == self.state.encumber().output_commitment
    }

    /// The commitment of the new output.
    pub fn output_commitment(&self) -> (commitment: CompressedCommitment)
        requires
            !self.state.is_complete(),
        ensures
            self.is_output(commitment),
    {
        self.state.encumbers[self.state.signatures.len()].output_commitment
    }

    /// Whether a step is the one that follows the wallet's look at the mask: the signature over the new output, or the
    /// end where the wallet could not look at it.
    pub open spec fn is_followed(self, looked: bool, step: SignStep) -> bool {
        match step {
            SignStep::SignOutput(signing) => {
                &&& looked
                &&& signing.state == self.state
                &&& signing.script_signature == self.script_signature
            },
            SignStep::Done(signatures) => !looked && signatures == self.state.signatures,
            _ => false,
        }
    }

    /// Goes on when the wallet has looked at the mask. Where it could not, the party is done with what it has
    /// signed before.
    pub fn checked(self, looked: bool) -> (step: SignStep)
        ensures
            self.is_followed(looked, step),
    {
        if looked {
            SignStep::SignOutput(OutputSigning { state: self.state, script_signature: self.script_signature })
        } else {
            SignStep::Done(self.state.signatures)
        }
    }
}

/// A party signs the new output of a transaction.
pub struct OutputSigning {
    /// The transactions that the party has signed so far.
    pub state: MemberSigning,
    /// The signature over the input.
    pub script_signature: Signature,
}

impl OutputSigning {
    /// Whether the script key of the new output is derived from a key.
    pub open spec fn is_recipient(self, key: CompressedPublicKey) -> bool {
        key == self.state.config.recipient_address.public_spend_key
    }

    /// The recipient's spend key, from which the script key of the new output is derived.
    pub fn recipient(&self) -> (key: CompressedPublicKey)
        ensures
            self.is_recipient(key),
    {
        self.state.config.recipient_address.public_spend_key
    }

    /// Whether the party's script offset is the difference of two named keys.
    pub open spec fn are_offset_keys(self, script_key: TariKeyId, sender_offset_key: TariKeyId) -> bool {
        &&& script_key == self.state.record().ephemeral_pubkey_id
        &&& sender_offset_key == self.state.record().sender_offset_key
    }

    /// The keys whose difference is the party's script offset: the script key and the sender offset key.
    pub fn offset_keys(&self) -> (keys: (&TariKeyId, &TariKeyId))
        requires
            !self.state.is_complete(),
            self.state.is_covered(),
        ensures
            self.are_offset_keys(*keys.0, *keys.1),
    {
        let record = &self.state.member.commitment_signatures[self.state.signatures.len()];
        (&record.ephemeral_pubkey_id, &record.sender_offset_key)
    }

    /// Whether the new output is signed with a named key and a named nonce.
    pub open spec fn are_keys(self, key: TariKeyId, nonce: TariKeyId) -> bool {
        &&& key == self.state.record().sender_offset_key
        &&& nonce == self.state.record().sender_offset_nonce_key
    }

    /// The names of the key and of the nonce to sign with.
    pub fn keys(&self) -> (keys: (&TariKeyId, &TariKeyId))
        requires
            !self.state.is_complete(),
            self.state.is_covered(),
        ensures
            self.are_keys(*keys.0, *keys.1),
    {
        let record = &self.state.member.commitment_signatures[self.state.signatures.len()];
        (&record.sender_offset_key, &record.sender_offset_nonce_key)
    }

    /// Whether a result is the challenge over the new output of the transaction with a script key, or nothing where the
    /// record of the transaction holds no features or no encrypted data.
    pub open spec fn is_challenge(self, script_key: CompressedPublicKey, r: Option<[u8; 64]>) -> bool {
        &&& r is Some <==> readable_features(self.state.encumber().output_features@) && readable_data(
            self.state.encumber().encrypted_data@,
        )
        &&& r matches Some(challenge) ==> exists|networks: Seq<u8>|
            challenge@ == #[trigger] metadata_hash(
                networks,
                script_key@,
                self.state.encumber().output_features@,
                self.state.encumber().sender_offset_pubkey@,
                self.state.encumber().metadata_signature_ephemeral_commitment@,
                self.state.encumber().metadata_signature_ephemeral_pubkey@,
                self.state.encumber().output_commitment@,
                self.state.encumber().encrypted_data@,
                0,
            )
    }

    /// The challenge to sign, for the script key of the new output. There is none where the record of the transaction
    /// holds no features or no encrypted data.
    pub fn challenge(&self, script_key: &CompressedPublicKey) -> (r: Option<[u8; 64]>)
        requires
            !self.state.is_complete(),
        ensures
            self.is_challenge(*script_key, r),
    {
        let encumber = &self.state.encumbers[self.state.signatures.len()];
        let r = hash_metadata_signature(
            &MetadataSigned {
                script_key: *script_key,
                features: &encumber.output_features,
                sender_offset_public_key: encumber.sender_offset_pubkey,
                ephemeral_commitment: encumber.metadata_signature_ephemeral_commitment,
                ephemeral_pubkey: encumber.metadata_signature_ephemeral_pubkey,
                commitment: encumber.output_commitment,
                encrypted_data: &encumber.encrypted_data,
                minimum_value_promise: 0,
            },
        );
        assert(*encumber == self.state.encumber());
        r
    }

    /// The record of the signatures over a transaction.
    pub open spec fn record(self, metadata_signature: Signature, script_offset: PrivateKey) -> MemberMultisigSignature {
        MemberMultisigSignature {
            output_index: self.state.signatures@.len() as usize,
            script_signature: self.script_signature,
            metadata_signature,
            script_offset,
        }
    }

    /// Whether a step is the one that follows the signature over the new output: the record of both signatures is
    /// added, or the party is done where a signature was never made.
    pub open spec fn is_followed(self, signature: Option<Signature>, script_offset: PrivateKey, step: SignStep) -> bool {
        match step {
            SignStep::Signed(state) => {
                &&& !self.script_signature.is_blank()
                &&& signature matches Some(metadata_signature) && !metadata_signature.is_blank()
                    && state.signatures@ == self.state.signatures@.push(self.record(metadata_signature, script_offset))
                &&& state.config == self.state.config
                &&& state.member == self.state.member
                &&& state.encumbers == self.state.encumbers
            },
            SignStep::Done(signatures) => {
                &&& match signature {
                    Some(metadata_signature) => self.script_signature.is_blank() || metadata_signature.is_blank(),
                    None => true,
                }
                &&& signatures == self.state.signatures
            },
            _ => false,
        }
    }

    /// Takes the signature over the new output. Without one, or where either signature was never made, the party
    /// is done with what it has signed before.
    pub fn signed(self, signature: Option<Signature>, script_offset: PrivateKey) -> (step: SignStep)
        ensures
            self.is_followed(signature, script_offset, step),
            step matches SignStep::Signed(state) ==> (in_order(self.state.signatures@) ==> in_order(state.signatures@)),
    {
        let metadata_signature = match signature {
            Some(signature) => signature,
            None => {
                return SignStep::Done(self.state.signatures);
            },
        };
        if self.script_signature.blank() || metadata_signature.blank() {
            return SignStep::Done(self.state.signatures);
        }
        let mut state = self.state;
        let output_index = state.signatures.len();
        state.signatures.push(
            MemberMultisigSignature {
                output_index,
                script_signature: self.script_signature,
                metadata_signature,
                script_offset,
            },
        );
        SignStep::Signed(state)
    }
}

/// A party opens the new output of a transaction with the key that the leader encrypted it with.
pub proof fn law_party_opens_with_the_leaders_key(
    input: UpdatedInput,
    transaction: EncumberedTransaction,
    parts: TransactionParts,
    state: MemberSigning,
)
    requires
        input.traced(),
        transaction.shared_secret@ == input.shared().secret@,
        valid_point(transaction.shared_secret@),
        !state.is_complete(),
        state.encumber() == parts.record(transaction, state.encumber().output_index),
    ensures
        state.opened() == decryption(
            input.shared().encryption_key@,
            parts.output_commitment@,
            parts.encrypted_data@,
        ),
{
}

/// A party that has a record for each commitment of the session finds one for each transaction that the leader
/// started.
pub proof fn law_every_transaction_is_covered(state: MemberSigning)
    requires
        state.member.commitment_signatures@.len() == state.config.commitments@.len(),
        state.encumbers@.len() <= state.config.commitments@.len(),
    ensures
        state.is_covered(),
{
}

/// The steps in which one transaction was signed, with the wallet's replies.
pub struct SigningRound {
    /// The signing of the input.
    pub script: ScriptSigning,
    /// The signature over the input.
    pub script_signature: Signature,
    /// The check of the mask.
    pub mask: MaskCheck,
    /// The signing of the new output.
    pub output: OutputSigning,
    /// The signature over the new output.
    pub metadata_signature: Signature,
    /// The script offset.
    pub script_offset: PrivateKey,
}

impl SigningRound {
    /// Whether the steps lead from one state to another.
    pub open spec fn leads(self, before: MemberSigning, after: MemberSigning) -> bool {
        &&& before.is_next(Ok(SignStep::SignScript(self.script)))
        &&& self.script.is_followed(Some(self.script_signature), SignStep::VerifyMask(self.mask))
        &&& self.mask.is_followed(true, SignStep::SignOutput(self.output))
        &&& self.output.is_followed(Some(self.metadata_signature), self.script_offset, SignStep::Signed(after))
    }
}

/// A party that has signed the leading transactions of a session has a record for each of them, in their order, with
/// the signatures and the offset that the wallet gave for it, and none of the signatures is blank.
pub proof fn law_signatures_are_those_of_the_wallet(states: Seq<MemberSigning>, rounds: Seq<SigningRound>)
    requires
        states.len() == rounds.len() + 1,
        states[0].signatures@.len() == 0,
        forall|i: int| 0 <= i < rounds.len() ==> (#[trigger] rounds[i]).leads(states[i], states[i + 1]),
    ensures
        states.last().signatures@.len() == rounds.len() <= states[0].encumbers@.len(),
        states.last().encumbers == states[0].encumbers,
        in_order(states.last().signatures@),
        forall|i: int|
            0 <= i < rounds.len() ==> {
                let record = #[trigger] states.last().signatures@[i];
                &&& record.output_index == i
                &&& record.script_signature == rounds[i].script_signature
                &&& record.metadata_signature == rounds[i].metadata_signature
                &&& record.script_offset == rounds[i].script_offset
            },
    decreases rounds.len(),
{
    if rounds.len() > 0 {
        let n = rounds.len() - 1;
        let fewer = states.drop_last();
        assert forall|i: int| 0 <= i < n implies (#[trigger] rounds.drop_last()[i]).leads(fewer[i], fewer[i + 1]) by {
            assert(rounds[i].leads(states[i], states[i + 1]));
        }
        law_signatures_are_those_of_the_wallet(fewer, rounds.drop_last());
        let round = rounds[n];
        let before = states[n];
        assert(fewer.last() == before);
        assert(round.leads(before, states[n + 1]));
        assert(before.signatures@.len() < before.encumbers.len());
        assert(states.last().signatures@.drop_last() =~= before.signatures@);
        assert forall|i: int| 0 <= i < rounds.len() implies {
            let record = #[trigger] states.last().signatures@[i];
            &&& record.output_index == i
            &&& record.script_signature == rounds[i].script_signature
            &&& record.metadata_signature == rounds[i].metadata_signature
            &&& record.script_offset == rounds[i].script_offset
        } by {
            if i < n {
                assert(states.last().signatures@[i] == before.signatures@[i]);
                assert(rounds.drop_last()[i] == rounds[i]);
            }
        }
    }
}

proof fn lemma_signing_keeps_the_session(
    config: MultisigOutput,
    member: MultisigMemberPartyOutput,
    encumbers: Vec<MultisigEncumberOutput>,
    states: Seq<MemberSigning>,
    rounds: Seq<SigningRound>,
    i: int,
)
    requires
        states.len() == rounds.len() + 1,
        is_signing(config, member, encumbers, states[0]),
        forall|k: int| 0 <= k < rounds.len() ==> (#[trigger] rounds[k]).leads(states[k], states[k + 1]),
        0 <= i < states.len(),
    ensures
        states[i].config == config,
        states[i].member == member,
        states[i].encumbers == encumbers,
        states[i].index() == i,
    decreases i,
{
    if i > 0 {
        lemma_signing_keeps_the_session(config, member, encumbers, states, rounds, i - 1);
        assert(rounds[i - 1].leads(states[i - 1], states[i]));
    }
}

/// A party signs with the private sides of the keys that it gave to the leader for the same commitment: the input with its
/// script key and its script nonce, the new output with its sender offset key and the nonce for it, and its offset is that
/// of its script key and its sender offset key. It signs for the session's commitment at the same position and for
/// the session's recipient, and verifies the mask of the transaction's new output.
pub proof fn law_party_signs_with_the_keys_that_it_gave(
    derived_key: spec_fn(Seq<u8>, CompressedPublicKey) -> CompressedPublicKey,
    public_key: spec_fn(TariKeyId) -> CompressedPublicKey,
    verifies: spec_fn(CompressedPublicKey, Seq<u8>, CheckSigSchnorrSignature) -> bool,
    shared_secret: spec_fn(TariKeyId, CompressedPublicKey) -> CompressedPublicKey,
    config: MultisigOutput,
    session_id: String,
    spend_key: CompressedPublicKey,
    parties: Seq<PartyMember>,
    party_rounds: Seq<PartyRound>,
    output: MultisigPartyOutput,
    encumbers: Vec<MultisigEncumberOutput>,
    states: Seq<MemberSigning>,
    rounds: Seq<SigningRound>,
    i: int,
    script_keys: (TariKeyId, TariKeyId),
    output_keys: (TariKeyId, TariKeyId),
    offset_keys: (TariKeyId, TariKeyId),
    recipient: CompressedPublicKey,
    masked: CompressedCommitment,
)
    requires
        is_part(config, session_id, spend_key, parties, party_rounds, output),
        forall|k: int|
            0 <= k < party_rounds.len() ==> (#[trigger] party_rounds[k]).is_right(derived_key, public_key, verifies),
        forall|k: int|
            0 <= k < party_rounds.len() ==> (#[trigger] party_rounds[k]).is_paired(public_key, shared_secret),
        is_signing(config, output.member, encumbers, states[0]),
        states.len() == rounds.len() + 1,
        forall|k: int| 0 <= k < rounds.len() ==> (#[trigger] rounds[k]).leads(states[k], states[k + 1]),
        0 <= i < rounds.len(),
        rounds[i].script.are_keys(script_keys.0, script_keys.1),
        rounds[i].output.are_keys(output_keys.0, output_keys.1),
        rounds[i].output.are_offset_keys(offset_keys.0, offset_keys.1),
        rounds[i].output.is_recipient(recipient),
        rounds[i].mask.is_output(masked),
    ensures
        i < output.leader.commitment_signatures@.len(),
        ({
            let given = output.leader.commitment_signatures@[i];
            &&& public_key(script_keys.0) == given.ephemeral_pubkey
            &&& public_key(script_keys.1) == given.script_nonce_key
            &&& public_key(output_keys.0) == given.sender_offset_public_key
            &&& public_key(output_keys.1) == given.sender_offset_public_nonce_key
            &&& public_key(offset_keys.0) == given.ephemeral_pubkey
            &&& public_key(offset_keys.1) == given.sender_offset_public_key
        }),
        recipient == config.recipient_address.public_spend_key,
        masked == encumbers@[i].output_commitment,
        commitment_of(config.commitments@[i]@) == Ok::<Seq<u8>, Seq<char>>(rounds[i].script.commitment@),
{
    lemma_signing_keeps_the_session(config, output.member, encumbers, states, rounds, i);
    assert(rounds[i].leads(states[i], states[i + 1]));
    law_what_is_given_belongs_to_what_is_kept(
        derived_key,
        public_key,
        verifies,
        shared_secret,
        config,
        session_id,
        spend_key,
        parties,
        party_rounds,
        output,
        i,
        rounds[i].script.commitment@,
    );
}

/// The challenges that a party signs are over the transaction that the leader started for the same commitment of the session:
/// with the sums of all parties' nonces and the leader's own, the sum of all script keys and the commitment that the
/// leader asked to spend, and with the parts of the transaction's input and new output. The new output promises no value.
pub proof fn law_challenges_are_over_the_leaders_totals(
    before: Encumbering,
    state: Encumbering,
    request: EncumberRequest,
    finished: FinishedTransaction,
    tx_id: u64,
    fetched: Seq<FetchedOutput>,
    replies: WalletReplies,
    parts: TransactionParts,
    after: Encumbering,
    script: ScriptSigning,
    challenge: [u8; 64],
    output: OutputSigning,
    script_key: CompressedPublicKey,
    output_challenge: [u8; 64],
)
    requires
        before.is_next(Ok(EncumberStep::Encumber(state, request))),
        finished.is_run(request, tx_id, fetched, replies),
        state.is_advanced(Some((finished.transaction, parts)), after),
        script.is_valid(),
        script.state.config == before.config,
        script.state.signatures@.len() == before.next,
        script.state.encumbers@[script.state.signatures@.len() as int] == after.outputs@.last(),
        script.is_challenge(Some(challenge)),
        output.state == script.state,
        output.is_challenge(script_key, Some(output_challenge)),
    ensures
        exists|networks: Seq<u8>|
            challenge@ == #[trigger] script_hash(
                networks,
                parts.script_signature_ephemeral_commitment@,
                point_add(point_sum(request.script_signature_public_nonces@), replies.own_script_nonce@),
                parts.input_script@,
                parts.input_stack@,
                replies.total_script_key@,
                request.expected_commitment@,
            ),
        exists|networks: Seq<u8>|
            output_challenge@ == #[trigger] metadata_hash(
                networks,
                script_key@,
                parts.output_features@,
                parts.sender_offset_pubkey@,
                parts.metadata_signature_ephemeral_commitment@,
                point_add(point_sum(request.metadata_ephemeral_public_key_shares@), replies.own_metadata_nonce@),
                parts.output_commitment@,
                parts.encrypted_data@,
                0,
            ),
        after.outputs@.last().tx_id == tx_id,
        after.outputs@.last().output_index == before.next,
{
    let text = before.config.commitments@[before.next as int]@;
    law_first_with_commitment(before.utxos@, text);
    law_hex_text_is_read_back(request.expected_commitment@);
    assert(hex_text(request.expected_commitment@) == text);
    assert(script.commitment@ == request.expected_commitment@);
    assert(finished.transaction.total_script_nonce@ == point_add(
        point_sum(request.script_signature_public_nonces@),
        replies.own_script_nonce@,
    ));
    assert(finished.transaction.total_metadata_nonce@ == point_add(
        point_sum(request.metadata_ephemeral_public_key_shares@),
        replies.own_metadata_nonce@,
    ));
    assert(finished.transaction.tx_id == tx_id);
    assert(finished.transaction.total_script_key == replies.total_script_key);
}

/// The value and the mask that a party verifies are what the new output's data holds under the key of the sum of all
/// parties' secrets and the leader's own.
pub proof fn law_mask_is_what_the_leader_sealed(
    state: Encumbering,
    request: EncumberRequest,
    finished: FinishedTransaction,
    tx_id: u64,
    fetched: Seq<FetchedOutput>,
    replies: WalletReplies,
    parts: TransactionParts,
    after: Encumbering,
    script: ScriptSigning,
    signature: Signature,
    check: MaskCheck,
    masked: CompressedCommitment,
)
    requires
        finished.is_run(request, tx_id, fetched, replies),
        state.is_advanced(Some((finished.transaction, parts)), after),
        script.state.encumbers@[script.state.signatures@.len() as int] == after.outputs@.last(),
        script.is_followed(Some(signature), SignStep::VerifyMask(check)),
        check.is_output(masked),
    ensures
        masked == parts.output_commitment,
        check.script_signature == signature,
        decryption(
            shared_secret_encryption_key(
                point_add(point_sum(request.dh_shared_secret_shares@), replies.own_secret@),
            ),
            parts.output_commitment@,
            parts.encrypted_data@,
        ) matches Some((value, mask, payment_id)) && value == check.value && mask == check.mask@,
{
    assert(finished.transaction.shared_secret@ == point_add(
        point_sum(request.dh_shared_secret_shares@),
        replies.own_secret@,
    ));
}

/// A party that is done has signed every transaction, unless the wallet gave no signature or a blank one, could not look at a
/// mask, or the new output could not be opened.
pub proof fn law_signing_ends_with_the_last_transaction(
    config: MultisigOutput,
    member: MultisigMemberPartyOutput,
    encumbers: Vec<MultisigEncumberOutput>,
    states: Seq<MemberSigning>,
    rounds: Seq<SigningRound>,
    signatures: Vec<MemberMultisigSignature>,
)
    requires
        is_signing(config, member, encumbers, states[0]),
        states.len() == rounds.len() + 1,
        forall|k: int| 0 <= k < rounds.len() ==> (#[trigger] rounds[k]).leads(states[k], states[k + 1]),
        states.last().is_next(Ok(SignStep::Done(signatures))),
    ensures
        signatures@.len() == encumbers@.len(),
        rounds.len() == encumbers@.len(),
        forall|i: int|
            0 <= i < encumbers@.len() ==> {
                &&& (#[trigger] signatures@[i]).output_index == i
                &&& signatures@[i].script_signature.public_nonce == rounds[i].script_signature.public_nonce
                &&& signatures@[i].script_signature.signature == rounds[i].script_signature.signature
                &&& signatures@[i].metadata_signature.public_nonce == rounds[i].metadata_signature.public_nonce
                &&& signatures@[i].metadata_signature.signature == rounds[i].metadata_signature.signature
                &&& signatures@[i].script_offset == rounds[i].script_offset
            },
{
    law_signatures_are_those_of_the_wallet(states, rounds);
    lemma_signing_keeps_the_session(config, member, encumbers, states, rounds, rounds.len() as int);
}

/// A transaction is signed exactly where the wallet gave both signatures, neither with the scalar zero, could look at the mask,
/// and the new output opens with the secret that the leader gave. Else the party ends with what it signed before.
pub proof fn law_transaction_is_signed_where_nothing_fails(
    script: ScriptSigning,
    script_signature: Option<Signature>,
    opened: SignStep,
    looked: bool,
    checked: SignStep,
    metadata_signature: Option<Signature>,
    script_offset: PrivateKey,
    signed: SignStep,
)
    requires
        script.is_followed(script_signature, opened),
        opened matches SignStep::VerifyMask(check) ==> check.is_followed(looked, checked),
        opened is VerifyMask && checked is SignOutput ==> checked->SignOutput_0.is_followed(
            metadata_signature,
            script_offset,
            signed,
        ),
    ensures
        ({
            let encumber = script.state.encumbers@[script.state.signatures@.len() as int];
            opened is VerifyMask <==> script_signature is Some && valid_point(encumber.shared_secret@) && decryption(
                shared_secret_encryption_key(encumber.shared_secret@),
                encumber.output_commitment@,
                encumber.encrypted_data@,
            ) is Some
        }),
        opened !is VerifyMask ==> (opened matches SignStep::Done(signatures) && signatures == script.state.signatures),
        opened is VerifyMask ==> (checked is SignOutput <==> looked),
        opened is VerifyMask && !looked ==> (checked matches SignStep::Done(signatures) && signatures
            == script.state.signatures),
        opened is VerifyMask && looked ==> (signed is Signed <==> (metadata_signature matches Some(metadata)
            && metadata.signature@ != zero_bytes() && script_signature->Some_0.signature@ != zero_bytes())),
        opened is VerifyMask && looked && !(signed is Signed) ==> (signed matches SignStep::Done(signatures)
            && signatures == script.state.signatures),
        opened is VerifyMask && looked && signed is Signed ==> {
            let state = signed->Signed_0;
            &&& state.signatures@.len() == script.state.signatures@.len() + 1
            &&& forall|i: int|
                0 <= i < script.state.signatures@.len() ==> #[trigger] state.signatures@[i]
                    == script.state.signatures@[i]
            &&& state.signatures@.last().script_signature == script_signature->Some_0
            &&& state.signatures@.last().metadata_signature == metadata_signature->Some_0
            &&& state.signatures@.last().script_offset == script_offset
            &&& state.config == script.state.config
            &&& state.member == script.state.member
            &&& state.encumbers == script.state.encumbers
        },
{
}

} // verus!
