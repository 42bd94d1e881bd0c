//! The leader's part: the transaction that spends a multisig output, before the parties have signed it.
//!
//! The transaction is made in stages. Each stage holds the one before it and what the wallet is asked for next;
//! the wallet's reply leads to the following stage or to an error.
use crate::crypto::decrypt_data;
use crate::crypto::decryption;
use crate::crypto::encryption_key_of_secret;
use crate::crypto::mask_check;
use crate::crypto::public_key_encryption_key;
use crate::crypto::shared_secret_encryption_key;
use crate::crypto::shared_secret_spending_key;
use crate::crypto::spending_key_of_secret;
use crate::crypto::verify_mask;
use crate::crypto::OutputSecrets;
use crate::error::CommandError;
use crate::error::OutputManagerError;
use crate::hex::hex_text;
use crate::key_map::KeyMap;
use crate::keys::is_neutral;
use crate::keys::lemma_identity_adds_nothing;
use crate::keys::lemma_points_cancel;
use crate::keys::point_add;
use crate::keys::same_bytes;
use crate::keys::valid_point;
use crate::keys::zero_bytes;
use crate::keys::CompressedCommitment;
use crate::keys::CompressedPublicKey;
use crate::keys::FixedHash;
use crate::keys::PrivateKey;
use crate::keys::RistrettoPublicKey;
use crate::script::all_points;
use crate::script::branch_key;
use crate::script::co_signing_keys;
use crate::script::collect_script_signatures;
use crate::script::get_multi_sig_script_components;
use crate::script::invalid_script_words;
use crate::script::is_key_error;
use crate::script::law_own_key_completes_the_sum;
use crate::script::law_signatures_are_those_of_the_keys;
use crate::script::lemma_sum_is_point;
use crate::script::multisig_components;
use crate::script::point_sum;
use crate::script::push_pubkey_script;
use crate::script::script_signatures;
use crate::script::signing_keys;
use crate::script::sum_public_keys;
use crate::script::sum_public_keys_to_encryption_key;
use crate::script::is_script_key;
use crate::script::KeyBranch;
use crate::script::Opcode;
use crate::script::TariScript;
use crate::text::decimal;
use crate::text::decimal_text;
use crate::text::enclosed;
use crate::text::joined;
use crate::types::CheckSigSchnorrSignature;
use crate::types::TariAddress;
use crate::types::TariKeyId;
use crate::weight::payment_fee;
use crate::weight::RangeProofType;
use crate::weight::TransactionWeight;
use tari_common_types::transaction::TxId;
use vstd::prelude::*;

verus! {

/// What a transaction that spends a multisig output is made from.
pub struct EncumberRequest {
    /// Whether a fee above the amount is refused.
    pub prevent_fee_gt_amount: bool,
    /// The address of the leader.
    pub own_address: TariAddress,
    /// The fee in micro Minotari per gram.
    pub fee_per_gram: u64,
    /// The commitment that the output must have.
    pub expected_commitment: CompressedCommitment,
    /// The parties' signatures over the commitment, by the key that they are made with.
    pub script_input_shares: KeyMap<CheckSigSchnorrSignature>,
    /// The parties' nonces for the script signature.
    pub script_signature_public_nonces: Vec<CompressedPublicKey>,
    /// The parties' sender offset keys.
    pub sender_offset_public_key_shares: Vec<CompressedPublicKey>,
    /// The parties' nonces for the metadata signature.
    pub metadata_ephemeral_public_key_shares: Vec<CompressedPublicKey>,
    /// The secrets that the parties share with the recipient.
    pub dh_shared_secret_shares: Vec<CompressedPublicKey>,
    /// Where the value goes.
    pub recipient_address: TariAddress,
    /// The payment id of the new output, as JSON text.
    pub tx_payment_id: Vec<u8>,
    /// The maturity of the new output.
    pub original_maturity: u64,
    /// How the value of the new output is proved to be in range.
    pub range_proof_type: RangeProofType,
    /// The least value that the new output promises.
    pub minimum_value_promise: u64,
    /// The hash of the output to spend.
    pub output_hash: FixedHash,
}

/// An output as the node gives it, as far as it is read here.
pub struct FetchedOutput {
    /// The commitment of the output.
    pub commitment: CompressedCommitment,
    /// The script of the output.
    pub script: TariScript,
    /// The value, the mask and the payment id, encrypted.
    pub encrypted_data: Vec<u8>,
}

/// Words that end with the name of a transaction in brackets.
pub open spec fn tx_words(words: Seq<char>, tx_id: u64) -> Seq<char> {
    words + decimal(tx_id as nat) + ")"@
}

fn tx_text(words: &str, tx_id: u64) -> (text: String)
    ensures
        text@ == tx_words(words@, tx_id),
{
    let id = decimal_text(tx_id);
    enclosed(words, id.as_str(), ")")
}

/// The words for an output that the node does not have.
pub open spec fn not_found_words(output_hash: FixedHash, tx_id: u64) -> Seq<char> {
    tx_words("Output with hash "@ + hex_text(output_hash@) + " not found in blockchain (TxId: "@, tx_id)
}

/// Whether an error is about an argument, in given words.
pub open spec fn is_invalid_argument(e: CommandError, words: Seq<char>) -> bool {
    e matches CommandError::InvalidArgument(text) && text@ == words
}

/// Whether an error is a failure in given words.
pub open spec fn is_general(e: CommandError, words: Seq<char>) -> bool {
    e matches CommandError::General(text) && text@ == words
}

/// The key that the secrets of a multisig output are encrypted with.
pub open spec fn multisig_encryption_key(keys: Seq<CompressedPublicKey>) -> Seq<u8> {
    public_key_encryption_key(point_sum(keys))
}

/// Whether an error is the one that an output is refused with. The first thing that is wrong decides.
pub open spec fn is_refusal(
    request: EncumberRequest,
    tx_id: u64,
    output: Option<FetchedOutput>,
    e: CommandError,
) -> bool {
    match output {
        None => is_invalid_argument(e, not_found_words(request.output_hash, tx_id)),
        Some(output) => if output.commitment != request.expected_commitment {
            is_invalid_argument(
                e,
                tx_words("Output commitment does not match expected commitment (TxId: "@, tx_id),
            )
        } else {
            match multisig_components(output.script.script@) {
                None => {
                    e matches CommandError::OutputManagerError(OutputManagerError::ServiceError(words)) && words@
                        == invalid_script_words(tx_id)
                },
                Some((keys, threshold)) => if !all_points(keys) {
                    is_key_error(e)
                } else {
                    match decryption(multisig_encryption_key(keys), output.commitment@, output.encrypted_data@) {
                        None => is_invalid_argument(e, tx_words("Could not decrypt output (TxId: "@, tx_id)),
                        Some((value, mask, payment_id)) => match mask_check(output.commitment@, mask, value) {
                            Err(words) => e matches CommandError::TransactionError(text) && text@ == words,
                            Ok(opens) => {
                                !opens && is_invalid_argument(
                                    e,
                                    tx_words("Could not verify mask (TxId: "@, tx_id),
                                )
                            },
                        },
                    }
                },
            }
        },
    }
}

/// The output to spend, opened. The wallet is asked to import the mask, to derive its own key and to sign the
/// commitment with it.
pub struct OpenedInput {
    /// What the transaction is made from.
    pub request: EncumberRequest,
    /// The name of the transaction.
    pub tx_id: u64,
    /// The output to spend.
    pub output: FetchedOutput,
    /// The keys of the output's script.
    pub keys: Vec<CompressedPublicKey>,
    /// How many of the keys must sign.
    pub threshold: u8,
    /// What the output's encrypted data holds.
    pub secrets: OutputSecrets,
    /// The position of the output among those that the node gave.
    pub index: usize,
}

impl OpenedInput {
    /// Whether the output is the one that was asked for, and the keys and the secrets are those of the output.
    pub open spec fn follows(self) -> bool {
        &&& self.output.commitment == self.request.expected_commitment
        &&& multisig_components(self.output.script.script@) == Some((self.keys@, self.threshold))
        &&& all_points(self.keys@)
        &&& decryption(
            multisig_encryption_key(self.keys@),
            self.output.commitment@,
            self.output.encrypted_data@,
        ) == Some(self.secrets@)
        &&& mask_check(self.output.commitment@, self.secrets.mask@, self.secrets.value) == Ok::<bool, Seq<char>>(true)
    }

    /// The parties' signatures together with the wallet's own.
    pub open spec fn shares(
        self,
        own_key: CompressedPublicKey,
        own_signature: CheckSigSchnorrSignature,
    ) -> Map<CompressedPublicKey, CheckSigSchnorrSignature> {
        self.request.script_input_shares@.insert(own_key, own_signature)
    }

    /// The words for a number of signatures that is not the one that the script asks for.
    pub open spec fn wrong_number_words(self, received: nat) -> Seq<char> {
        "Invalid number of signatures (TxId: "@ + decimal(self.tx_id as nat) + "), expected "@ + decimal(
            self.threshold as nat,
        ) + ", received "@ + decimal(received)
    }
}

/// The output that is spent of those that the node gave: the last one, if there is one.
pub open spec fn last_output(outputs: Seq<FetchedOutput>) -> Option<FetchedOutput> {
    if outputs.len() == 0 {
        None
    } else {
        Some(outputs.last())
    }
}

/// Whether a result is the opened output for a transaction with a given name, or the error that it is refused with.
pub open spec fn is_opening(
    request: EncumberRequest,
    tx_id: u64,
    outputs: Seq<FetchedOutput>,
    r: Result<OpenedInput, CommandError>,
) -> bool {
    match r {
        Ok(opened) => {
            &&& opened.request == request
            &&& opened.tx_id == tx_id
            &&& last_output(outputs) == Some(opened.output)
            &&& opened.index == outputs.len() - 1
            &&& opened.follows()
        },
        Err(e) => is_refusal(request, tx_id, last_output(outputs), e),
    }
}

/// Calls `TxId::new_random` of `tari_common_types`, which draws a number at random. Nothing is claimed of it.
#[verifier::external_body]
fn random_tx_id() -> (tx_id: u64) {
    TxId::new_random().as_u64()
}

/// Starts a transaction that spends a multisig output, under a random name.
pub fn encumber_aggregate_utxo(request: EncumberRequest, outputs: Vec<FetchedOutput>) -> (r: Result<
    OpenedInput,
    CommandError,
>)
    ensures
        exists|tx_id: u64| #[trigger] is_opening(request, tx_id, outputs@, r),
{
    let tx_id = random_tx_id();
    encumber_named_utxo(request, tx_id, outputs)
}

/// Starts a transaction with a given name that spends a multisig output: checks the last of the outputs that the node
/// gave, and opens it.
pub fn encumber_named_utxo(request: EncumberRequest, tx_id: u64, outputs: Vec<FetchedOutput>) -> (r: Result<
    OpenedInput,
    CommandError,
>)
    ensures
        is_opening(request, tx_id, outputs@, r),
{
    let mut outputs = outputs;
    let last = outputs.pop();
    let index = outputs.len();
    let output = match last {
        Some(output) => output,
        None => {
            let hash = crate::hex::encode(&request.output_hash);
            let words = enclosed("Output with hash ", hash.as_str(), " not found in blockchain (TxId: ");
            return Err(CommandError::InvalidArgument(tx_text(words.as_str(), tx_id)));
        },
    };
    if !same_bytes(&output.commitment, &request.expected_commitment) {
        return Err(
            CommandError::InvalidArgument(
                tx_text("Output commitment does not match expected commitment (TxId: ", tx_id),
            ),
        );
    }
    let (keys, threshold) = match get_multi_sig_script_components(&output.script, tx_id) {
        Ok(components) => components,
        Err(e) => {
            return Err(CommandError::OutputManagerError(e));
        },
    };
    let encryption_key = match sum_public_keys_to_encryption_key(keys.as_slice()) {
        Ok(key) => key,
        Err(e) => {
            return Err(e);
        },
    };
    let secrets = match decrypt_data(&encryption_key, &output.commitment, output.encrypted_data.as_slice()) {
        Some(secrets) => secrets,
        None => {
            return Err(CommandError::InvalidArgument(tx_text("Could not decrypt output (TxId: ", tx_id)));
        },
    };
    match verify_mask(&output.commitment, &secrets.mask, secrets.value) {
        Ok(true) => Ok(OpenedInput { request, tx_id, output, keys, threshold, secrets, index }),
        Ok(false) => Err(CommandError::InvalidArgument(tx_text("Could not verify mask (TxId: ", tx_id))),
        Err(words) => Err(CommandError::TransactionError(words)),
    }
}

/// The output to spend with the signatures that its script asks for. The wallet is asked to import the mask, and
/// to make the input with the signatures.
pub struct SignedInput {
    /// The stage before.
    pub opened: OpenedInput,
    /// The wallet's own key.
    pub own_key: CompressedPublicKey,
    /// The wallet's own signature over the commitment.
    pub own_signature: CheckSigSchnorrSignature,
    /// The signatures over the commitment, in the order of the keys of the script.
    pub signatures: Vec<CheckSigSchnorrSignature>,
    /// The sum of the keys that signed, without the wallet's own.
    pub script_key_shares: RistrettoPublicKey,
}

impl SignedInput {
    /// The parties' signatures together with the wallet's own.
    pub open spec fn shares(self) -> Map<CompressedPublicKey, CheckSigSchnorrSignature> {
        self.opened.shares(self.own_key, self.own_signature)
    }

    /// Whether the signatures and the sum are those of the keys that signed.
    pub open spec fn follows(self) -> bool {
        &&& self.signatures@ == script_signatures(self.opened.keys@, self.shares())
        &&& self.signatures@.len() == self.opened.threshold
        &&& all_points(co_signing_keys(self.opened.keys@, self.shares(), self.own_key))
        &&& self.script_key_shares@ == point_sum(
            co_signing_keys(self.opened.keys@, self.shares(), self.own_key),
        )
    }

    /// What the wallet's fee would be.
    pub open spec fn fee(self, weight: TransactionWeight) -> nat {
        weight.payment_fee(self.opened.request.fee_per_gram)
    }
}

impl OpenedInput {
    /// Whether a message is the one to sign: the commitment of the output.
    pub open spec fn is_message(self, message: [u8; 32]) -> bool {
        message == self.output.commitment
    }

    /// The message to sign: the commitment of the output.
    pub fn message(&self) -> (message: [u8; 32])
        ensures
            self.is_message(message),
    {
        self.output.commitment
    }

    /// Whether a result is the stage with the wallet's own signature, or the error that a key is no point or that there
    /// is another number of signatures than the script asks for.
    pub open spec fn is_signed(
        self,
        own_key: CompressedPublicKey,
        own_signature: CheckSigSchnorrSignature,
        r: Result<SignedInput, CommandError>,
    ) -> bool {
        match r {
            Ok(signed) => {
                &&& signed.opened == self
                &&& signed.own_key == own_key
                &&& signed.own_signature == own_signature
                &&& signed.follows()
            },
            Err(e) => {
                let shares = self.shares(own_key, own_signature);
                if !all_points(co_signing_keys(self.keys@, shares, own_key)) {
                    is_key_error(e)
                } else {
                    let received = script_signatures(self.keys@, shares).len();
                    received != self.threshold && is_invalid_argument(e, self.wrong_number_words(received))
                }
            },
        }
    }

    /// Adds the wallet's own signature to those of the parties, and puts them in the order of the script.
    pub fn add_own_signature(
        self,
        own_key: CompressedPublicKey,
        own_signature: CheckSigSchnorrSignature,
    ) -> (r: Result<SignedInput, CommandError>)
        ensures
            self.is_signed(own_key, own_signature, r),
    {
        let shares = self.request.script_input_shares.duplicate().insert(own_key, own_signature);
        match collect_script_signatures(self.keys.as_slice(), &shares, &own_key) {
            Ok((signatures, script_key_shares)) => {
                if signatures.len() != self.threshold as usize {
                    let id = decimal_text(self.tx_id);
                    let expected = decimal_text(self.threshold as u64);
                    let received = decimal_text(signatures.len() as u64);
                    let words = enclosed("Invalid number of signatures (TxId: ", id.as_str(), "), expected ");
                    let words = enclosed(words.as_str(), expected.as_str(), ", received ");
                    return Err(CommandError::InvalidArgument(joined(words.as_str(), received.as_str())));
                }
                Ok(SignedInput { opened: self, own_key, own_signature, signatures, script_key_shares })
            },
            Err(e) => Err(e),
        }
    }
}

/// The spend with its fee and its amount. The wallet is asked to start the transaction: the input goes to the
/// recipient whole, but for the fee, and without change.
pub struct PlannedSpend {
    /// The stage before.
    pub signed: SignedInput,
    /// What the parts of the transaction weigh.
    pub weight: TransactionWeight,
    /// The fee.
    pub fee: u64,
    /// What the recipient gets.
    pub amount: u64,
}

impl PlannedSpend {
    /// Whether fee and amount add up to the value of the output, and the fee is that of the transaction's weight.
    pub open spec fn follows(self) -> bool {
        &&& self.fee == self.signed.fee(self.weight)
        &&& self.amount + self.fee == self.signed.opened.secrets.value
    }
}

impl SignedInput {
    /// The fee of the transaction.
    pub fn get_fee(&self, weight: &TransactionWeight) -> (fee: u64)
        requires
            weight.is_valid(),
            weight.payment_grams() <= u64::MAX,
        ensures
            fee == self.fee(*weight),
    {
        let request = &self.opened.request;
        payment_fee(
            weight,
            request.fee_per_gram,
            request.original_maturity,
            request.range_proof_type,
            &request.recipient_address.public_spend_key,
        )
    }

    /// Whether a spend is this one with its fee and its amount.
    pub open spec fn is_planned(self, weight: TransactionWeight, spend: PlannedSpend) -> bool {
        &&& spend.signed == self
        &&& spend.weight == weight
        &&& spend.follows()
    }

    /// Divides the value of the output into the fee and the amount for the recipient.
    pub fn plan(self, weight: TransactionWeight) -> (spend: PlannedSpend)
        requires
            weight.is_valid(),
            weight.payment_grams() <= u64::MAX,
            self.fee(weight) <= self.opened.secrets.value,
        ensures
            self.is_planned(weight, spend),
    {
        let fee = self.get_fee(&weight);
        let amount: u64 = self.opened.secrets.value - fee;
        PlannedSpend { signed: self, weight, fee, amount }
    }
}

/// What the wallet is told of change, which the transaction does not have: where it would go, and no keys.
pub struct ChangeOrder<'a> {
    /// The script of the change.
    pub script: TariScript,
    /// The input data of the change, in bytes.
    pub input_data: Vec<u8>,
    /// The name of the script key.
    pub script_key_id: TariKeyId,
    /// The name of the mask.
    pub commitment_mask_key_id: TariKeyId,
    /// The covenant of the change, in bytes.
    pub covenant: Vec<u8>,
    /// The address of the leader.
    pub address: &'a TariAddress,
}

/// What the wallet starts the transaction with.
pub struct TransactionOrder<'a> {
    /// The commitment of the one input.
    pub input: CompressedCommitment,
    /// The value of the input.
    pub input_value: u64,
    /// The height from which the transaction counts.
    pub lock_height: u64,
    /// The fee in micro Minotari per gram.
    pub fee_per_gram: u64,
    /// The features of the kernel, a bit for each.
    pub kernel_features: u8,
    /// Whether a fee above the amount is refused.
    pub prevent_fee_gt_amount: bool,
    /// The script of the new output, until it gets its own.
    pub recipient_script: TariScript,
    /// The maturity of the new output.
    pub maturity: u64,
    /// How the value of the new output is proved to be in range.
    pub range_proof_type: RangeProofType,
    /// The covenant of the new output, in bytes.
    pub covenant: Vec<u8>,
    /// The least value that the new output promises.
    pub minimum_value_promise: u64,
    /// What the recipient gets.
    pub amount: u64,
    /// Where the value goes.
    pub recipient_address: &'a TariAddress,
    /// What is said of change.
    pub change: ChangeOrder<'a>,
    /// The payment id of the spent output, as JSON text.
    pub payment_id: &'a Vec<u8>,
}

impl PlannedSpend {
    /// Whether an order is the one for this spend: the whole output goes to the recipient but for the fee, the kernel
    /// has no features and no lock, and neither a covenant nor change is asked for.
    pub open spec fn is_order(self, order: TransactionOrder<'_>) -> bool {
        let request = self.signed.opened.request;
        &&& order.input == self.signed.opened.output.commitment
        &&& order.input_value == self.signed.opened.secrets.value
        &&& order.lock_height == 0
        &&& order.fee_per_gram == request.fee_per_gram
        &&& order.kernel_features == 0
        &&& order.prevent_fee_gt_amount == request.prevent_fee_gt_amount
        &&& order.recipient_script.script@ == seq![Opcode::PushPubKey(request.recipient_address.public_spend_key)]
        &&& order.maturity == request.original_maturity
        &&& order.range_proof_type == request.range_proof_type
        &&& order.covenant@ == Seq::<u8>::empty()
        &&& order.minimum_value_promise == request.minimum_value_promise
        &&& order.amount == self.amount
        &&& *order.recipient_address == request.recipient_address
        &&& order.change.script.script@.len() == 1
        &&& order.change.script.script@[0] matches Opcode::PushPubKey(key) && key@ == zero_bytes()
        &&& order.change.input_data@ == Seq::<u8>::empty()
        &&& order.change.script_key_id is Zero
        &&& order.change.commitment_mask_key_id is Zero
        &&& order.change.covenant@ == Seq::<u8>::empty()
        &&& *order.change.address == request.own_address
        &&& *order.payment_id == self.signed.opened.secrets.payment_id
    }

    /// What the wallet starts the transaction with.
    pub fn order(&self) -> (order: TransactionOrder<'_>)
        ensures
            self.is_order(order),
    {
        let request = &self.signed.opened.request;
        let no_key = RistrettoPublicKey::identity().to_compressed();
        let change = ChangeOrder {
            script: push_pubkey_script(&no_key),
            input_data: Vec::new(),
            script_key_id: TariKeyId::default(),
            commitment_mask_key_id: TariKeyId::default(),
            covenant: Vec::new(),
            address: &request.own_address,
        };
        TransactionOrder {
            input: self.signed.opened.output.commitment,
            input_value: self.signed.opened.secrets.value,
            lock_height: 0,
            fee_per_gram: request.fee_per_gram,
            kernel_features: 0,
            prevent_fee_gt_amount: request.prevent_fee_gt_amount,
            recipient_script: push_pubkey_script(&request.recipient_address.public_spend_key),
            maturity: request.original_maturity,
            range_proof_type: request.range_proof_type,
            covenant: Vec::new(),
            minimum_value_promise: request.minimum_value_promise,
            amount: self.amount,
            recipient_address: &request.recipient_address,
            change,
            payment_id: &self.signed.opened.secrets.payment_id,
        }
    }
}

/// What the output manager confirms when the transaction is started.
pub struct Confirmation {
    /// The name of the transaction.
    pub tx_id: u64,
    /// The commitments of the change.
    pub change: Vec<CompressedCommitment>,
}

/// A started transaction that the output manager has confirmed. The wallet is asked for the name of its sender offset
/// key.
pub struct ConfirmedSpend {
    /// The stage before.
    pub spend: PlannedSpend,
}

impl PlannedSpend {
    /// Whether the wallet takes its sender offset key from a branch.
    pub open spec fn is_branch(self, branch: Seq<char>) -> bool {
        branch == KeyBranch::OneSidedSenderOffset.name()
    }

    /// The branch of keys that the wallet takes its sender offset key from.
    pub fn sender_offset_branch(&self) -> (branch: String)
        ensures
            self.is_branch(branch@),
    {
        branch_key(KeyBranch::OneSidedSenderOffset)
    }

    /// Whether a confirmation is the one for this spend: with its name, and no change.
    pub open spec fn is_confirmation(self, confirmation: Confirmation) -> bool {
        &&& confirmation.tx_id == self.signed.opened.tx_id
        &&& confirmation.change@ == Seq::<CompressedCommitment>::empty()
    }

    /// What the output manager is asked to confirm once the transaction is started: its name, and no change.
    pub fn confirmation(&self) -> (confirmation: Confirmation)
        ensures
            self.is_confirmation(confirmation),
    {
        Confirmation { tx_id: self.signed.opened.tx_id, change: Vec::new() }
    }

    /// Whether a result is the confirmed spend, or the output manager's error.
    pub open spec fn is_confirmed(
        self,
        reply: Result<(), OutputManagerError>,
        r: Result<ConfirmedSpend, CommandError>,
    ) -> bool {
        match reply {
            Ok(_) => r matches Ok(confirmed) && confirmed.spend == self,
            Err(e) => r == Err::<ConfirmedSpend, CommandError>(CommandError::OutputManagerError(e)),
        }
    }

    /// Goes on if the output manager has confirmed the transaction.
    pub fn confirmed(self, reply: Result<(), OutputManagerError>) -> (r: Result<ConfirmedSpend, CommandError>)
        ensures
            self.is_confirmed(reply, r),
    {
        match reply {
            Ok(_) => Ok(ConfirmedSpend { spend: self }),
            Err(e) => Err(CommandError::OutputManagerError(e)),
        }
    }
}

/// A step of the transaction that only the wallet takes.
#[derive(Clone, Copy)]
pub enum WalletStep {
    /// Giving the sender protocol the wallet's sender offset key.
    ChangeSenderOffset,
    /// Building the message to the receiver.
    BuildMessage,
    /// Getting the message to the receiver.
    GetMessage,
    /// Signing or building the new output.
    BuildOutput,
    /// Getting what the receiver signed.
    GetSignedData,
    /// Taking the receiver's reply.
    AddRecipient,
    /// Finishing the transaction as far as the wallet can.
    Finalize,
    /// Getting the transaction.
    GetTransaction,
    /// Getting the fee of the transaction.
    GetFee,
    /// Putting the record of the transaction together.
    CompleteRecord,
}

impl WalletStep {
    /// The words for a step that failed, with the words of the reason.
    pub open spec fn words(self, tx_id: u64, reason: Seq<char>) -> Seq<char> {
        match self {
            WalletStep::ChangeSenderOffset => "Failed to change recipient sender offset private key: "@ + reason,
            WalletStep::BuildMessage => "Failed to build single round message: "@ + reason,
            WalletStep::GetMessage => "Failed to get single round message: "@ + reason,
            WalletStep::BuildOutput => tx_words("Error (TxId: "@, tx_id) + ": "@ + reason,
            WalletStep::GetSignedData => "Failed to get signed data: "@ + reason,
            WalletStep::AddRecipient => "Failed to add presigned recipient info: "@ + reason,
            WalletStep::Finalize => tx_words("Failed to finalize transaction (TxId: "@, tx_id) + ": "@ + reason,
            WalletStep::GetTransaction => "Failed to get transaction: "@ + reason,
            WalletStep::GetFee => "Failed to get fee amount: "@ + reason,
            WalletStep::CompleteRecord => decimal(tx_id as nat) + ": "@ + reason,
        }
    }

    /// The error of a step that failed.
    pub fn failure(self, tx_id: u64, reason: &str) -> (e: CommandError)
        ensures
            is_general(e, self.words(tx_id, reason@)),
    {
        let words = match self {
            WalletStep::ChangeSenderOffset => joined(
                "Failed to change recipient sender offset private key: ",
                reason,
            ),
            WalletStep::BuildMessage => joined("Failed to build single round message: ", reason),
            WalletStep::GetMessage => joined("Failed to get single round message: ", reason),
            WalletStep::BuildOutput => {
                let start = tx_text("Error (TxId: ", tx_id);
                enclosed(start.as_str(), ": ", reason)
            },
            WalletStep::GetSignedData => joined("Failed to get signed data: ", reason),
            WalletStep::AddRecipient => joined("Failed to add presigned recipient info: ", reason),
            WalletStep::Finalize => {
                let start = tx_text("Failed to finalize transaction (TxId: ", tx_id);
                enclosed(start.as_str(), ": ", reason)
            },
            WalletStep::GetTransaction => joined("Failed to get transaction: ", reason),
            WalletStep::GetFee => joined("Failed to get fee amount: ", reason),
            WalletStep::CompleteRecord => {
                let id = decimal_text(tx_id);
                enclosed(id.as_str(), ": ", reason)
            },
        };
        CommandError::General(words)
    }
}

/// The secrets that the parties share with the recipient, added up. The wallet is asked for its own secret with
/// the recipient's view key.
pub struct SecretRequest {
    /// The stage before.
    pub spend: PlannedSpend,
    /// The sum of the parties' secrets.
    pub secret_shares: RistrettoPublicKey,
    /// The recipient's view key.
    pub view_key: CompressedPublicKey,
    /// The name of the wallet's sender offset key.
    pub sender_offset_key: TariKeyId,
}

impl SecretRequest {
    /// Whether the sum and the view key are those of the request.
    pub open spec fn follows(self) -> bool {
        let request = self.spend.signed.opened.request;
        &&& all_points(request.dh_shared_secret_shares@)
        &&& self.secret_shares@ == point_sum(request.dh_shared_secret_shares@)
        &&& request.recipient_address.public_view_key == Some(self.view_key)
    }
}

impl ConfirmedSpend {
    /// Whether a result is the stage with the parties' secrets added up, or the error that there is no sender offset key,
    /// that a secret is no point or that the recipient has no view key. The first thing that is wrong decides.
    pub open spec fn is_asked(
        self,
        sender_offset_key: Result<Option<TariKeyId>, String>,
        r: Result<SecretRequest, CommandError>,
    ) -> bool {
        match r {
            Ok(asked) => {
                &&& asked.spend == self.spend
                &&& sender_offset_key matches Ok(Some(key_id)) && asked.sender_offset_key == key_id
                &&& asked.follows()
            },
            Err(e) => {
                let request = self.spend.signed.opened.request;
                let tx_id = self.spend.signed.opened.tx_id;
                match sender_offset_key {
                    Err(words) => is_general(
                        e,
                        tx_words("Failed to get recipient sender offset private key (TxId: "@, tx_id) + ": "@
                            + words@,
                    ),
                    Ok(None) => is_general(e, tx_words("Missing sender offset private key ID (TxId: "@, tx_id)),
                    Ok(Some(_)) => if !all_points(request.dh_shared_secret_shares@) {
                        is_key_error(e)
                    } else {
                        request.recipient_address.public_view_key is None && is_general(
                            e,
                            tx_words("Missing public view key (TxId: "@, tx_id),
                        )
                    },
                }
            },
        }
    }

    /// Takes the name of the wallet's sender offset key, and adds up the secrets that the parties share with the
    /// recipient.
    pub fn request_secret(self, sender_offset_key: Result<Option<TariKeyId>, String>) -> (r: Result<
        SecretRequest,
        CommandError,
    >)
        ensures
            self.is_asked(sender_offset_key, r),
    {
        let spend = self.spend;
        let tx_id = spend.signed.opened.tx_id;
        let sender_offset_key = match sender_offset_key {
            Ok(Some(key_id)) => key_id,
            Ok(None) => {
                return Err(
                    CommandError::General(tx_text("Missing sender offset private key ID (TxId: ", tx_id)),
                );
            },
            Err(words) => {
                let start = tx_text("Failed to get recipient sender offset private key (TxId: ", tx_id);
                return Err(CommandError::General(enclosed(start.as_str(), ": ", words.as_str())));
            },
        };
        let secret_shares = match sum_public_keys(spend.signed.opened.request.dh_shared_secret_shares.as_slice()) {
            Ok(sum) => sum,
            Err(e) => {
                return Err(e);
            },
        };
        match spend.signed.opened.request.recipient_address.public_view_key {
            Some(view_key) => Ok(SecretRequest { spend, secret_shares, view_key, sender_offset_key }),
            None => Err(CommandError::General(tx_text("Missing public view key (TxId: ", tx_id))),
        }
    }
}

/// The secret that all parties share with the recipient. The wallet is asked to import the spending key and the
/// encryption key, and for its own sender offset key.
pub struct SharedSecret {
    /// The stage before.
    pub asked: SecretRequest,
    /// The wallet's own secret with the recipient.
    pub own_secret: CompressedPublicKey,
    /// The sum of all secrets.
    pub secret: RistrettoPublicKey,
    /// The spending key of the new output.
    pub spending_key: PrivateKey,
    /// The encryption key of the new output.
    pub encryption_key: PrivateKey,
}

impl SharedSecret {
    /// Whether the secret is the sum of all secrets, and the keys are derived from it.
    pub open spec fn follows(self) -> bool {
        &&& valid_point(self.own_secret@)
        &&& self.secret@ == point_add(self.asked.secret_shares@, self.own_secret@)
        &&& self.spending_key@ == shared_secret_spending_key(self.secret@)
        &&& self.encryption_key@ == shared_secret_encryption_key(self.secret@)
    }
}

impl SecretRequest {
    /// Whether keys are those that the wallet's own secret with the recipient is made of.
    pub open spec fn are_secret_keys(self, key_id: TariKeyId, view_key: CompressedPublicKey) -> bool {
        &&& key_id == self.sender_offset_key
        &&& view_key == self.view_key
    }

    /// The key and the view key that the wallet's own secret with the recipient is made of: its sender offset key, and
    /// the recipient's view key.
    pub fn secret_keys(&self) -> (keys: (&TariKeyId, &CompressedPublicKey))
        ensures
            self.are_secret_keys(*keys.0, *keys.1),
    {
        (&self.sender_offset_key, &self.view_key)
    }

    /// Whether a result is the stage with the wallet's own secret, or the error that it is no point.
    pub open spec fn is_shared(self, own_secret: CompressedPublicKey, r: Result<SharedSecret, CommandError>) -> bool {
        match r {
            Ok(shared) => shared.asked == self && shared.own_secret == own_secret && shared.follows(),
            Err(e) => !valid_point(own_secret@) && is_key_error(e),
        }
    }

    /// Adds the wallet's own secret, and derives the keys of the new output.
    pub fn add_own_secret(self, own_secret: CompressedPublicKey) -> (r: Result<SharedSecret, CommandError>)
        ensures
            self.is_shared(own_secret, r),
    {
        match RistrettoPublicKey::from_compressed(&own_secret) {
            Ok(own) => {
                let secret = self.secret_shares.plus(&own);
                let spending_key = spending_key_of_secret(&secret);
                let encryption_key = encryption_key_of_secret(&secret);
                Ok(SharedSecret { asked: self, own_secret, secret, spending_key, encryption_key })
            },
            Err(e) => Err(CommandError::ByteArrayError(e)),
        }
    }
}

/// The sender offset key of the new output. The wallet is asked for the message to the receiver.
pub struct SenderOffset {
    /// The stage before.
    pub shared: SharedSecret,
    /// The wallet's own sender offset key.
    pub own_key: CompressedPublicKey,
    /// The sum of the parties' sender offset keys.
    pub shares: RistrettoPublicKey,
    /// The sum of all sender offset keys.
    pub total: RistrettoPublicKey,
}

impl SenderOffset {
    /// Whether the sums are those of the parties' keys and of all keys.
    pub open spec fn follows(self) -> bool {
        let request = self.shared.asked.spend.signed.opened.request;
        &&& all_points(request.sender_offset_public_key_shares@)
        &&& valid_point(self.own_key@)
        &&& self.shares@ == point_sum(request.sender_offset_public_key_shares@)
        &&& self.total@ == point_add(self.shares@, self.own_key@)
    }
}

impl SharedSecret {
    /// Whether a result is the stage with the sender offset keys added up, or the error that one is no point.
    pub open spec fn is_offset(self, own_key: CompressedPublicKey, r: Result<SenderOffset, CommandError>) -> bool {
        match r {
            Ok(sender) => sender.shared == self && sender.own_key == own_key && sender.follows(),
            Err(e) => {
                let shares = self.asked.spend.signed.opened.request.sender_offset_public_key_shares@;
                !(all_points(shares) && valid_point(own_key@)) && is_key_error(e)
            },
        }
    }

    /// Adds up the sender offset keys.
    pub fn add_own_sender_offset(self, own_key: CompressedPublicKey) -> (r: Result<SenderOffset, CommandError>)
        ensures
            self.is_offset(own_key, r),
    {
        let request = &self.asked.spend.signed.opened.request;
        let shares = match sum_public_keys(request.sender_offset_public_key_shares.as_slice()) {
            Ok(sum) => sum,
            Err(e) => {
                return Err(e);
            },
        };
        match RistrettoPublicKey::from_compressed(&own_key) {
            Ok(own) => {
                let total = shares.plus(&own);
                Ok(SenderOffset { shared: self, own_key, shares, total })
            },
            Err(e) => Err(CommandError::ByteArrayError(e)),
        }
    }
}

/// The parties' nonces for the metadata signature, added up. The wallet is asked to build the new output, and to
/// sign it in part.
pub struct MetadataNonces {
    /// The stage before.
    pub sender: SenderOffset,
    /// The sum of the parties' nonces.
    pub shares: RistrettoPublicKey,
}

impl MetadataNonces {
    /// Whether the sum is that of the parties' nonces.
    pub open spec fn follows(self) -> bool {
        let request = self.sender.shared.asked.spend.signed.opened.request;
        &&& all_points(request.metadata_ephemeral_public_key_shares@)
        &&& self.shares@ == point_sum(request.metadata_ephemeral_public_key_shares@)
    }
}

impl SenderOffset {
    /// Whether a result is the stage with the parties' nonces added up, or the error that one is no point.
    pub open spec fn is_summed(self, r: Result<MetadataNonces, CommandError>) -> bool {
        match r {
            Ok(nonces) => nonces.sender == self && nonces.follows(),
            Err(e) => {
                let shares = self.shared.asked.spend.signed.opened.request.metadata_ephemeral_public_key_shares@;
                !all_points(shares) && is_key_error(e)
            },
        }
    }

    /// Adds up the parties' nonces for the metadata signature.
    pub fn add_metadata_nonces(self) -> (r: Result<MetadataNonces, CommandError>)
        ensures
            self.is_summed(r),
    {
        let request = &self.shared.asked.spend.signed.opened.request;
        match sum_public_keys(request.metadata_ephemeral_public_key_shares.as_slice()) {
            Ok(shares) => Ok(MetadataNonces { sender: self, shares }),
            Err(e) => Err(e),
        }
    }
}

/// What the wallet builds the new output with.
pub struct OutputOrder<'a> {
    /// What the recipient gets.
    pub amount: u64,
    /// The script of the new output.
    pub script: TariScript,
    /// The payment id of the new output, as JSON text.
    pub payment_id: &'a Vec<u8>,
    /// The mask of the new output.
    pub spending_key: PrivateKey,
    /// The key that the value, the mask and the payment id are encrypted with.
    pub encryption_key: PrivateKey,
    /// The name of the wallet's sender offset key, which signs.
    pub sender_offset_key: &'a TariKeyId,
    /// The sum of all sender offset keys.
    pub sender_offset_public_key: CompressedPublicKey,
    /// The sum of the parties' sender offset keys.
    pub sender_offset_shares: CompressedPublicKey,
    /// The sum of the parties' nonces for the metadata signature.
    pub nonce_shares: CompressedPublicKey,
    /// The least value that the new output promises.
    pub minimum_value_promise: u64,
}

impl OutputOrder<'_> {
    /// Whether encrypted data is what the order asks for: opened with its encryption key, it holds its amount, its mask
    /// and its payment id.
    pub open spec fn is_sealed(self, commitment: Seq<u8>, encrypted_data: Seq<u8>) -> bool {
        decryption(self.encryption_key@, commitment, encrypted_data) == Some(
            (self.amount, self.spending_key@, self.payment_id@),
        )
    }
}

impl MetadataNonces {
    /// Whether an order is the one for the new output, with the script key of the recipient.
    pub open spec fn is_order(self, script_key: CompressedPublicKey, order: OutputOrder<'_>) -> bool {
        let spend = self.sender.shared.asked.spend;
        let request = spend.signed.opened.request;
        &&& order.amount == spend.amount
        &&& order.script.script@ == seq![Opcode::PushPubKey(script_key)]
        &&& *order.payment_id == request.tx_payment_id
        &&& order.spending_key == self.sender.shared.spending_key
        &&& order.encryption_key == self.sender.shared.encryption_key
        &&& *order.sender_offset_key == self.sender.shared.asked.sender_offset_key
        &&& order.sender_offset_public_key@ == self.sender.total@
        &&& order.sender_offset_shares@ == self.sender.shares@
        &&& order.nonce_shares@ == self.shares@
        &&& order.minimum_value_promise == request.minimum_value_promise
    }

    /// Whether a key is the recipient's spend key.
    pub open spec fn is_recipient(self, key: CompressedPublicKey) -> bool {
        key == self.sender.shared.asked.spend.signed.opened.request.recipient_address.public_spend_key
    }

    /// The recipient's spend key, from which the script key of the new output is derived.
    pub fn recipient(&self) -> (key: CompressedPublicKey)
        ensures
            self.is_recipient(key),
    {
        self.sender.shared.asked.spend.signed.opened.request.recipient_address.public_spend_key
    }

    /// What the wallet builds the new output with, for the script key of the recipient.
    pub fn order(&self, script_key: &CompressedPublicKey) -> (order: OutputOrder<'_>)
        ensures
            self.is_order(*script_key, order),
    {
        let shared = &self.sender.shared;
        let spend = &shared.asked.spend;
        let request = &spend.signed.opened.request;
        OutputOrder {
            amount: spend.amount,
            script: push_pubkey_script(script_key),
            payment_id: &request.tx_payment_id,
            spending_key: shared.spending_key,
            encryption_key: shared.encryption_key,
            sender_offset_key: &shared.asked.sender_offset_key,
            sender_offset_public_key: self.sender.total.to_compressed(),
            sender_offset_shares: self.sender.shares.to_compressed(),
            nonce_shares: self.shares.to_compressed(),
            minimum_value_promise: request.minimum_value_promise,
        }
    }
}

/// The new output. The wallet is asked for the receiver's reply, and to finish the transaction as far as it can.
pub struct BuiltOutput {
    /// The stage before.
    pub nonces: MetadataNonces,
    /// The wallet's own nonce for the metadata signature.
    pub own_nonce: CompressedPublicKey,
    /// The sum of all nonces for the metadata signature.
    pub total_nonce: RistrettoPublicKey,
}

impl BuiltOutput {
    /// Whether the sum is that of all nonces.
    pub open spec fn follows(self) -> bool {
        &&& valid_point(self.own_nonce@)
        &&& self.total_nonce@ == point_add(self.nonces.shares@, self.own_nonce@)
    }
}

impl MetadataNonces {
    /// Whether a result is the stage with all nonces added up, or the error that the wallet's own is no point.
    pub open spec fn is_built(self, own_nonce: CompressedPublicKey, r: Result<BuiltOutput, CommandError>) -> bool {
        match r {
            Ok(built) => built.nonces == self && built.own_nonce == own_nonce && built.follows(),
            Err(e) => !valid_point(own_nonce@) && is_key_error(e),
        }
    }

    /// Adds the nonce of the wallet's part of the metadata signature.
    pub fn add_own_nonce(self, own_nonce: CompressedPublicKey) -> (r: Result<BuiltOutput, CommandError>)
        ensures
            self.is_built(own_nonce, r),
    {
        match RistrettoPublicKey::from_compressed(&own_nonce) {
            Ok(own) => {
                let total_nonce = self.shares.plus(&own);
                Ok(BuiltOutput { nonces: self, own_nonce, total_nonce })
            },
            Err(e) => Err(CommandError::ByteArrayError(e)),
        }
    }
}

/// The parties' nonces for the script signature, added up. The wallet is asked to sign the input in part.
pub struct ScriptNonces {
    /// The stage before.
    pub built: BuiltOutput,
    /// The sum of the parties' nonces.
    pub shares: RistrettoPublicKey,
}

impl ScriptNonces {
    /// Whether the sum is that of the parties' nonces.
    pub open spec fn follows(self) -> bool {
        let request = self.built.nonces.sender.shared.asked.spend.signed.opened.request;
        &&& all_points(request.script_signature_public_nonces@)
        &&& self.shares@ == point_sum(request.script_signature_public_nonces@)
    }
}

impl BuiltOutput {
    /// Whether a result is the stage with the parties' nonces added up, or the error that one is no point.
    pub open spec fn is_summed(self, r: Result<ScriptNonces, CommandError>) -> bool {
        match r {
            Ok(nonces) => nonces.built == self && nonces.follows(),
            Err(e) => {
                let request = self.nonces.sender.shared.asked.spend.signed.opened.request;
                !all_points(request.script_signature_public_nonces@) && is_key_error(e)
            },
        }
    }

    /// Adds up the parties' nonces for the script signature.
    pub fn add_script_nonces(self) -> (r: Result<ScriptNonces, CommandError>)
        ensures
            self.is_summed(r),
    {
        let request = &self.nonces.sender.shared.asked.spend.signed.opened.request;
        match sum_public_keys(request.script_signature_public_nonces.as_slice()) {
            Ok(shares) => Ok(ScriptNonces { built: self, shares }),
            Err(e) => Err(e),
        }
    }
}

/// What the wallet signs the input with.
#[derive(Clone, Copy)]
pub struct InputOrder {
    /// The sum of the parties' nonces for the script signature.
    pub nonce_shares: CompressedPublicKey,
    /// The sum of the keys that signed, without the wallet's own.
    pub script_key_shares: CompressedPublicKey,
}

impl InputOrder {
    /// Whether the wallet gave the sum of all script keys as it is asked to: its own script key added to the others.
    pub open spec fn is_kept(self, own_key: CompressedPublicKey, total_script_key: CompressedPublicKey) -> bool {
        total_script_key@ == point_add(self.script_key_shares@, own_key@)
    }
}

impl ScriptNonces {
    /// Whether an order is the one for the input: the sums of the parties' nonces and of the keys that signed, without
    /// the wallet's own.
    pub open spec fn is_order(self, order: InputOrder) -> bool {
        &&& order.nonce_shares@ == self.shares@
        &&& order.script_key_shares@ == self.built.nonces.sender.shared.asked.spend.signed.script_key_shares@
    }

    /// What the wallet signs the input with.
    pub fn order(&self) -> (order: InputOrder)
        ensures
            self.is_order(order),
    {
        let signed = &self.built.nonces.sender.shared.asked.spend.signed;
        InputOrder {
            nonce_shares: self.shares.to_compressed(),
            script_key_shares: signed.script_key_shares.to_compressed(),
        }
    }
}

/// The input with the wallet's part of the script signature. The wallet is asked to put it into the transaction.
pub struct UpdatedInput {
    /// The stage before.
    pub nonces: ScriptNonces,
    /// The wallet's own nonce for the script signature.
    pub own_nonce: CompressedPublicKey,
    /// The sum of all nonces for the script signature.
    pub total_nonce: RistrettoPublicKey,
    /// The sum of all script keys.
    pub total_script_key: CompressedPublicKey,
}

impl UpdatedInput {
    /// Whether the sum is that of all nonces.
    pub open spec fn follows(self) -> bool {
        &&& valid_point(self.own_nonce@)
        &&& self.total_nonce@ == point_add(self.nonces.shares@, self.own_nonce@)
    }

    /// Whether every stage follows from the one before it.
    pub open spec fn traced(self) -> bool {
        &&& self.follows()
        &&& self.nonces.follows()
        &&& self.nonces.built.follows()
        &&& self.nonces.built.nonces.follows()
        &&& self.nonces.built.nonces.sender.follows()
        &&& self.nonces.built.nonces.sender.shared.follows()
        &&& self.nonces.built.nonces.sender.shared.asked.follows()
        &&& self.nonces.built.nonces.sender.shared.asked.spend.follows()
        &&& self.nonces.built.nonces.sender.shared.asked.spend.signed.follows()
        &&& self.nonces.built.nonces.sender.shared.asked.spend.signed.opened.follows()
    }

    /// The stage in which the secret was shared.
    pub open spec fn shared(self) -> SharedSecret {
        self.nonces.built.nonces.sender.shared
    }

    /// The stage in which the spend was planned.
    pub open spec fn spend(self) -> PlannedSpend {
        self.shared().asked.spend
    }
}

impl ScriptNonces {
    /// Whether a result is the stage with all nonces added up and with the sum of all script keys, or the error that the
    /// wallet's own nonce is no point.
    pub open spec fn is_updated(
        self,
        own_nonce: CompressedPublicKey,
        total_script_key: CompressedPublicKey,
        r: Result<UpdatedInput, CommandError>,
    ) -> bool {
        match r {
            Ok(updated) => {
                &&& updated.nonces == self
                &&& updated.own_nonce == own_nonce
                &&& updated.total_script_key == total_script_key
                &&& updated.follows()
            },
            Err(e) => !valid_point(own_nonce@) && is_key_error(e),
        }
    }

    /// Adds the nonce of the wallet's part of the script signature.
    pub fn add_own_nonce(self, own_nonce: CompressedPublicKey, total_script_key: CompressedPublicKey) -> (r: Result<
        UpdatedInput,
        CommandError,
    >)
        ensures
            self.is_updated(own_nonce, total_script_key, r),
    {
        match RistrettoPublicKey::from_compressed(&own_nonce) {
            Ok(own) => {
                let total_nonce = self.shares.plus(&own);
                Ok(UpdatedInput { nonces: self, own_nonce, total_nonce, total_script_key })
            },
            Err(e) => Err(CommandError::ByteArrayError(e)),
        }
    }
}

/// A transaction that waits for the parties' signatures: its name, its amounts and the sums of keys that the
/// parties sign with.
#[derive(Clone, Copy)]
pub struct EncumberedTransaction {
    /// The name of the transaction.
    pub tx_id: u64,
    /// What the recipient gets.
    pub amount: u64,
    /// The fee that the transaction pays.
    pub fee: u64,
    /// The sum of all script keys.
    pub total_script_key: CompressedPublicKey,
    /// The sum of all nonces for the metadata signature.
    pub total_metadata_nonce: CompressedPublicKey,
    /// The sum of all nonces for the script signature.
    pub total_script_nonce: CompressedPublicKey,
    /// The secret that all parties share with the recipient.
    pub shared_secret: CompressedPublicKey,
}

fn check_points(commitments: &[CompressedCommitment]) -> (r: Result<(), CommandError>)
    ensures
        match r {
            Ok(_) => all_points(commitments@),
            Err(e) => !all_points(commitments@) && is_key_error(e),
        },
{
    let mut i: usize = 0;
    while i < commitments.len()
        invariant
            i <= commitments@.len(),
            forall|j: int| 0 <= j < i ==> valid_point((#[trigger] commitments@[j])@),
        decreases commitments@.len() - i,
    {
        match RistrettoPublicKey::from_compressed(&commitments[i]) {
            Ok(_) => {},
            Err(e) => {
                return Err(CommandError::ByteArrayError(e));
            },
        }
        i += 1;
    }
    Ok(())
}

/// How far a transaction has come.
#[derive(Clone, Copy)]
pub enum TransactionStatus {
    /// It waits for signatures.
    Pending,
    /// It is complete.
    Completed,
}

/// Where a transaction goes, as the wallet sees it.
#[derive(Clone, Copy)]
pub enum TransactionDirection {
    /// To the wallet.
    Inbound,
    /// From the wallet.
    Outbound,
}

/// What the wallet records of a started transaction, besides the transaction itself and the time.
pub struct TransactionRecord<'a> {
    /// The name of the transaction.
    pub tx_id: u64,
    /// The address of the leader.
    pub source: &'a TariAddress,
    /// Where the value goes.
    pub destination: &'a TariAddress,
    /// What the recipient gets.
    pub amount: u64,
    /// The fee that the transaction pays.
    pub fee: u64,
    /// How far the transaction has come.
    pub status: TransactionStatus,
    /// Where the transaction goes.
    pub direction: TransactionDirection,
    /// The height at which the transaction was mined.
    pub mined_height: Option<u64>,
    /// The payment id of the spent output, as JSON text.
    pub payment_id: &'a Vec<u8>,
    /// The hashes of the outputs that are sent.
    pub sent_output_hashes: &'a Vec<FixedHash>,
    /// The hashes of the outputs that are received.
    pub received_output_hashes: Vec<FixedHash>,
    /// The hashes of the outputs that are change.
    pub change_output_hashes: Vec<FixedHash>,
}

/// A transaction that is made and checked. The wallet is asked to record it.
pub struct FinishedTransaction {
    /// The stage before.
    pub updated: UpdatedInput,
    /// What the parties need to sign.
    pub transaction: EncumberedTransaction,
    /// The hashes of the transaction's outputs.
    pub output_hashes: Vec<FixedHash>,
}

impl FinishedTransaction {
    /// Whether what the parties need to sign is that of the stage before, with a given fee.
    pub open spec fn follows(self, fee: u64) -> bool {
        &&& self.transaction.tx_id == self.updated.spend().signed.opened.tx_id
        &&& self.transaction.amount == self.updated.spend().amount
        &&& self.transaction.fee == fee
        &&& self.transaction.total_script_key == self.updated.total_script_key
        &&& self.transaction.total_metadata_nonce@ == self.updated.nonces.built.total_nonce@
        &&& self.transaction.total_script_nonce@ == self.updated.total_nonce@
        &&& self.transaction.shared_secret@ == self.updated.shared().secret@
        &&& valid_point(self.transaction.total_metadata_nonce@)
        &&& valid_point(self.transaction.total_script_nonce@)
        &&& valid_point(self.transaction.shared_secret@)
    }
}

impl UpdatedInput {
    /// Whether a result is the finished transaction, or the error that a commitment or an excess is no point.
    pub open spec fn is_finished(
        self,
        fee: u64,
        outputs: Seq<CompressedCommitment>,
        inputs: Seq<CompressedCommitment>,
        kernels: Seq<CompressedCommitment>,
        output_hashes: Vec<FixedHash>,
        r: Result<FinishedTransaction, CommandError>,
    ) -> bool {
        match r {
            Ok(finished) => {
                &&& all_points(outputs) && all_points(inputs) && all_points(kernels)
                &&& finished.updated == self
                &&& finished.output_hashes == output_hashes
                &&& finished.follows(fee)
            },
            Err(e) => !(all_points(outputs) && all_points(inputs) && all_points(kernels)) && is_key_error(e),
        }
    }

    /// Checks that the commitments of the transaction's outputs and inputs and the excesses of its kernels are
    /// points, and gives what the parties need to sign.
    pub fn finish(
        self,
        fee: u64,
        outputs: &[CompressedCommitment],
        inputs: &[CompressedCommitment],
        kernels: &[CompressedCommitment],
        output_hashes: Vec<FixedHash>,
    ) -> (r: Result<FinishedTransaction, CommandError>)
        ensures
            self.is_finished(fee, outputs@, inputs@, kernels@, output_hashes, r),
    {
        match check_points(outputs) {
            Ok(_) => {},
            Err(e) => {
                return Err(e);
            },
        }
        match check_points(inputs) {
            Ok(_) => {},
            Err(e) => {
                return Err(e);
            },
        }
        match check_points(kernels) {
            Ok(_) => {},
            Err(e) => {
                return Err(e);
            },
        }
        let shared = &self.nonces.built.nonces.sender.shared;
        let spend = &shared.asked.spend;
        let transaction = EncumberedTransaction {
            tx_id: spend.signed.opened.tx_id,
            amount: spend.amount,
            fee,
            total_script_key: self.total_script_key,
            total_metadata_nonce: self.nonces.built.total_nonce.to_compressed(),
            total_script_nonce: self.total_nonce.to_compressed(),
            shared_secret: shared.secret.to_compressed(),
        };
        Ok(FinishedTransaction { updated: self, transaction, output_hashes })
    }
}

impl FinishedTransaction {
    /// Whether a record is the one for this transaction: pending and outbound, from the leader to the recipient, with
    /// all its outputs sent, and none received or change.
    pub open spec fn is_record(self, record: TransactionRecord<'_>) -> bool {
        let opened = self.updated.spend().signed.opened;
        &&& record.tx_id == self.transaction.tx_id
        &&& *record.source == opened.request.own_address
        &&& *record.destination == opened.request.recipient_address
        &&& record.amount == self.transaction.amount
        &&& record.fee == self.transaction.fee
        &&& record.status is Pending
        &&& record.direction is Outbound
        &&& record.mined_height is None
        &&& *record.payment_id == opened.secrets.payment_id
        &&& *record.sent_output_hashes == self.output_hashes
        &&& record.received_output_hashes@ == Seq::<FixedHash>::empty()
        &&& record.change_output_hashes@ == Seq::<FixedHash>::empty()
    }

    /// What the wallet records of the transaction.
    pub fn record(&self) -> (record: TransactionRecord<'_>)
        ensures
            self.is_record(record),
    {
        let opened = &self.updated.nonces.built.nonces.sender.shared.asked.spend.signed.opened;
        TransactionRecord {
            tx_id: self.transaction.tx_id,
            source: &opened.request.own_address,
            destination: &opened.request.recipient_address,
            amount: self.transaction.amount,
            fee: self.transaction.fee,
            status: TransactionStatus::Pending,
            direction: TransactionDirection::Outbound,
            mined_height: None,
            payment_id: &opened.secrets.payment_id,
            sent_output_hashes: &self.output_hashes,
            received_output_hashes: Vec::new(),
            change_output_hashes: Vec::new(),
        }
    }

    /// Whether a result is what the parties need to sign, or the error that the transaction was not recorded.
    pub open spec fn is_recorded(
        self,
        reply: Result<(), String>,
        r: Result<EncumberedTransaction, CommandError>,
    ) -> bool {
        match reply {
            Ok(_) => r == Ok::<EncumberedTransaction, CommandError>(self.transaction),
            Err(words) => r matches Err(e) && is_general(e, "Failed to insert completed transaction: "@ + words@),
        }
    }

    /// Gives what the parties need to sign, if the wallet has recorded the transaction.
    pub fn recorded(self, reply: Result<(), String>) -> (r: Result<EncumberedTransaction, CommandError>)
        ensures
            self.is_recorded(reply, r),
    {
        match reply {
            Ok(_) => Ok(self.transaction),
            Err(words) => Err(
                CommandError::General(joined("Failed to insert completed transaction: ", words.as_str())),
            ),
        }
    }
}

/// A transaction that went through all stages spends the output that was asked for: amount and fee add up to the
/// output's value, the script gets exactly the signatures that it asks for, in the order of its keys, and every sum
/// is the sum of the parties' shares and the wallet's own.
pub proof fn law_every_total_is_a_sum_of_shares(input: UpdatedInput)
    requires
        input.traced(),
    ensures
        ({
            let request = input.spend().signed.opened.request;
            let signed = input.spend().signed;
            let opened = signed.opened;
            let sender = input.nonces.built.nonces.sender;
            &&& opened.output.commitment == request.expected_commitment
            &&& input.spend().amount + input.spend().fee == opened.secrets.value
            &&& multisig_components(opened.output.script.script@) == Some((opened.keys@, opened.threshold))
            &&& signed.signatures@ == script_signatures(opened.keys@, signed.shares())
            &&& signed.signatures@.len() == opened.threshold
            &&& input.shared().secret@ == point_add(
                point_sum(request.dh_shared_secret_shares@),
                input.shared().own_secret@,
            )
            &&& input.shared().spending_key@ == shared_secret_spending_key(input.shared().secret@)
            &&& input.shared().encryption_key@ == shared_secret_encryption_key(input.shared().secret@)
            &&& sender.total@ == point_add(point_sum(request.sender_offset_public_key_shares@), sender.own_key@)
            &&& input.nonces.built.total_nonce@ == point_add(
                point_sum(request.metadata_ephemeral_public_key_shares@),
                input.nonces.built.own_nonce@,
            )
            &&& input.total_nonce@ == point_add(
                point_sum(request.script_signature_public_nonces@),
                input.own_nonce@,
            )
        }),
{
}

/// What is missing in the transaction are the parties' shares: a total differs from the wallet's own part exactly where
/// the shares do not add up to the identity.
pub proof fn law_transaction_is_only_partial(input: UpdatedInput)
    requires
        is_neutral(zero_bytes()),
        input.traced(),
    ensures
        ({
            let request = input.spend().signed.opened.request;
            let sender = input.nonces.built.nonces.sender;
            &&& input.total_nonce@ != input.own_nonce@ <==> point_sum(request.script_signature_public_nonces@)
                != zero_bytes()
            &&& input.nonces.built.total_nonce@ != input.nonces.built.own_nonce@ <==> point_sum(
                request.metadata_ephemeral_public_key_shares@,
            ) != zero_bytes()
            &&& sender.total@ != sender.own_key@ <==> point_sum(request.sender_offset_public_key_shares@)
                != zero_bytes()
            &&& input.shared().secret@ != input.shared().own_secret@ <==> point_sum(
                request.dh_shared_secret_shares@,
            ) != zero_bytes()
        }),
{
    let request = input.spend().signed.opened.request;
    lemma_total_is_own_part(request.script_signature_public_nonces@, input.own_nonce@);
    lemma_total_is_own_part(request.metadata_ephemeral_public_key_shares@, input.nonces.built.own_nonce@);
    lemma_total_is_own_part(
        request.sender_offset_public_key_shares@,
        input.nonces.built.nonces.sender.own_key@,
    );
    lemma_total_is_own_part(request.dh_shared_secret_shares@, input.shared().own_secret@);
}

proof fn lemma_total_is_own_part(shares: Seq<CompressedPublicKey>, own: Seq<u8>)
    requires
        is_neutral(zero_bytes()),
        all_points(shares),
        valid_point(own),
    ensures
        point_add(point_sum(shares), own) == own <==> point_sum(shares) == zero_bytes(),
{
    lemma_sum_is_point(shares);
    lemma_identity_adds_nothing(own);
    if point_add(point_sum(shares), own) == own {
        lemma_points_cancel(point_sum(shares), zero_bytes(), own);
    }
}

/// The sum of all script keys is the sum of exactly the keys of the script that signed, where the wallet adds its own
/// script key to the sum that it is handed, and its key stands once in the script.
pub proof fn law_total_script_key_is_the_sum_of_the_signing_keys(input: UpdatedInput, order: InputOrder)
    requires
        is_neutral(zero_bytes()),
        input.traced(),
        input.nonces.is_order(order),
        order.is_kept(input.spend().signed.own_key, input.total_script_key),
        input.spend().signed.opened.keys@.to_multiset().count(input.spend().signed.own_key) == 1,
    ensures
        input.total_script_key@ == point_sum(
            signing_keys(input.spend().signed.opened.keys@, input.spend().signed.shares()),
        ),
{
    let signed = input.spend().signed;
    law_own_key_completes_the_sum(signed.opened.keys@, signed.shares(), signed.own_key);
}

/// A kernel as the wallet made it.
#[derive(Clone, Copy)]
pub struct MadeKernel {
    /// The features of the kernel, a bit for each.
    pub features: u8,
    /// The fee that the transaction pays.
    pub fee: u64,
    /// The height from which the transaction counts.
    pub lock_height: u64,
}

/// A transaction as the wallet made it.
pub struct MadeTransaction {
    /// The commitments of the inputs.
    pub inputs: Vec<CompressedCommitment>,
    /// The values of the outputs.
    pub output_values: Vec<u64>,
    /// The kernels.
    pub kernels: Vec<MadeKernel>,
}

impl TransactionOrder<'_> {
    /// Whether the wallet made a transaction as it is ordered: of the input, of one output of the amount and of one
    /// kernel with the features and the lock height of the order, where what goes in comes out.
    pub open spec fn is_kept(self, made: MadeTransaction) -> bool {
        &&& made.inputs@ == seq![self.input]
        &&& made.output_values@ == seq![self.amount]
        &&& made.kernels@.len() == 1
        &&& made.kernels@[0].features == self.kernel_features
        &&& made.kernels@[0].lock_height == self.lock_height
        &&& self.input_value == self.amount + made.kernels@[0].fee
    }
}

/// The whole input goes to one recipient: a transaction that the wallet made as ordered has one input, which is the
/// output that was asked for, one output, of the amount, and one kernel, without features and without a lock. Its fee
/// is the one that was planned, and amount and fee add up to the value of the input.
pub proof fn law_whole_input_goes_to_one_recipient(
    finished: FinishedTransaction,
    order: TransactionOrder<'_>,
    made: MadeTransaction,
)
    requires
        finished.updated.traced(),
        finished.updated.spend().is_order(order),
        order.is_kept(made),
        finished.follows(made.kernels@[0].fee),
    ensures
        made.inputs@ == seq![finished.updated.spend().signed.opened.request.expected_commitment],
        made.output_values@ == seq![finished.transaction.amount],
        made.kernels@.len() == 1,
        made.kernels@[0].features == 0,
        made.kernels@[0].lock_height == 0,
        made.kernels@[0].fee == finished.transaction.fee,
        finished.transaction.fee == finished.updated.spend().fee,
        finished.transaction.amount + finished.transaction.fee
            == finished.updated.spend().signed.opened.secrets.value,
{
}

/// The recipient gets the new output back: the secret in the result is the sum of the parties' secrets and the
/// wallet's own, and the key that belongs to it opens the encrypted data, as the order asks for it, to the amount, the
/// spending key that belongs to the secret, and the payment id.
pub proof fn law_recipient_opens_the_new_output(
    finished: FinishedTransaction,
    fee: u64,
    script_key: CompressedPublicKey,
    order: OutputOrder<'_>,
    commitment: Seq<u8>,
    encrypted_data: Seq<u8>,
)
    requires
        finished.updated.traced(),
        finished.follows(fee),
        finished.updated.nonces.built.nonces.is_order(script_key, order),
        order.is_sealed(commitment, encrypted_data),
    ensures
        ({
            let secret = finished.transaction.shared_secret@;
            let request = finished.updated.spend().signed.opened.request;
            &&& secret == point_add(
                point_sum(request.dh_shared_secret_shares@),
                finished.updated.shared().own_secret@,
            )
            &&& decryption(shared_secret_encryption_key(secret), commitment, encrypted_data) == Some(
                (
                    finished.transaction.amount,
                    shared_secret_spending_key(secret),
                    request.tx_payment_id@,
                ),
            )
        }),
{
}

/// The wallet's own signature counts towards the script's number where the wallet's key is one of the script's.
pub proof fn law_own_signature_is_used(signed: SignedInput, i: int)
    requires
        signed.follows(),
        0 <= i < signed.opened.keys@.len(),
        signed.opened.keys@[i] == signed.own_key,
    ensures
        signed.signatures@.contains(signed.own_signature),
{
    let keys = signed.opened.keys@;
    let shares = signed.shares();
    law_signatures_are_those_of_the_keys(keys, shares);
    assert(shares.dom().contains(keys[i]));
    let signing = signing_keys(keys, shares);
    let j = choose|j: int| 0 <= j < signing.len() && signing[j] == keys[i];
    assert(signed.signatures@[j] == shares[signed.own_key]);
}

/// What the wallet replied while a transaction was started.
pub struct WalletReplies {
    /// The wallet's own script key.
    pub own_key: CompressedPublicKey,
    /// The wallet's own signature over the commitment.
    pub own_signature: CheckSigSchnorrSignature,
    /// What the parts of the transaction weigh.
    pub weight: TransactionWeight,
    /// The name of the wallet's sender offset key.
    pub sender_offset_key: TariKeyId,
    /// The wallet's own secret with the recipient.
    pub own_secret: CompressedPublicKey,
    /// The wallet's own sender offset key.
    pub own_offset: CompressedPublicKey,
    /// The wallet's own nonce for the metadata signature.
    pub own_metadata_nonce: CompressedPublicKey,
    /// The wallet's own nonce for the script signature.
    pub own_script_nonce: CompressedPublicKey,
    /// The sum of all script keys.
    pub total_script_key: CompressedPublicKey,
    /// The fee that the transaction pays.
    pub fee: u64,
    /// The commitments of the outputs.
    pub outputs: Vec<CompressedCommitment>,
    /// The commitments of the inputs.
    pub inputs: Vec<CompressedCommitment>,
    /// The excesses of the kernels.
    pub kernels: Vec<CompressedCommitment>,
    /// The hashes of the outputs.
    pub output_hashes: Vec<FixedHash>,
}

impl FinishedTransaction {
    /// Whether the transaction came out of a request, a name, what the node gave and the wallet's replies, one stage
    /// after another.
    pub open spec fn is_run(
        self,
        request: EncumberRequest,
        tx_id: u64,
        fetched: Seq<FetchedOutput>,
        replies: WalletReplies,
    ) -> bool {
        let updated = self.updated;
        let nonces = updated.nonces;
        let built = nonces.built;
        let metadata = built.nonces;
        let sender = metadata.sender;
        let shared = sender.shared;
        let asked = shared.asked;
        let spend = asked.spend;
        let signed = spend.signed;
        let opened = signed.opened;
        &&& is_opening(request, tx_id, fetched, Ok(opened))
        &&& opened.is_signed(replies.own_key, replies.own_signature, Ok(signed))
        &&& signed.is_planned(replies.weight, spend)
        &&& spend.is_confirmed(Ok(()), Ok(ConfirmedSpend { spend }))
        &&& (ConfirmedSpend { spend }).is_asked(Ok(Some(replies.sender_offset_key)), Ok(asked))
        &&& asked.is_shared(replies.own_secret, Ok(shared))
        &&& shared.is_offset(replies.own_offset, Ok(sender))
        &&& sender.is_summed(Ok(metadata))
        &&& metadata.is_built(replies.own_metadata_nonce, Ok(built))
        &&& built.is_summed(Ok(nonces))
        &&& nonces.is_updated(replies.own_script_nonce, replies.total_script_key, Ok(updated))
        &&& updated.is_finished(
            replies.fee,
            replies.outputs@,
            replies.inputs@,
            replies.kernels@,
            replies.output_hashes,
            Ok(self),
        )
    }
}

/// A transaction that is finished went through all stages, from the request and the wallet's replies on.
pub proof fn law_finished_transaction_is_traced(
    finished: FinishedTransaction,
    request: EncumberRequest,
    tx_id: u64,
    fetched: Seq<FetchedOutput>,
    replies: WalletReplies,
)
    requires
        finished.is_run(request, tx_id, fetched, replies),
    ensures
        finished.updated.traced(),
        finished.follows(replies.fee),
        finished.updated.spend().signed.opened.request == request,
{
}

/// A transaction spends the last output that the node gave, which has the commitment that was asked for and a multisig
/// script. What it pays and its fee by weight add up to the value that the key of all script keys opens the output to,
/// and the mask is one of its commitment. Each total that the parties sign for is the sum of all their shares, in
/// whatever order, and of the wallet's own.
pub proof fn law_transaction_is_of_its_request(
    finished: FinishedTransaction,
    request: EncumberRequest,
    tx_id: u64,
    fetched: Seq<FetchedOutput>,
    replies: WalletReplies,
    keys: Seq<CompressedPublicKey>,
    threshold: u8,
    value: u64,
    mask: Seq<u8>,
    payment_id: Seq<u8>,
)
    requires
        finished.is_run(request, tx_id, fetched, replies),
        fetched.len() > 0 ==> multisig_components(fetched.last().script.script@) == Some((keys, threshold)),
        fetched.len() > 0 ==> decryption(
            public_key_encryption_key(point_sum(keys)),
            fetched.last().commitment@,
            fetched.last().encrypted_data@,
        ) == Some((value, mask, payment_id)),
    ensures
        fetched.len() > 0,
        finished.updated.spend().signed.opened.index == fetched.len() - 1,
        fetched.last().commitment == request.expected_commitment,
        mask_check(request.expected_commitment@, mask, value) == Ok::<bool, Seq<char>>(true),
        finished.transaction.tx_id == tx_id,
        finished.transaction.amount + replies.weight.payment_fee(request.fee_per_gram) == value,
        finished.transaction.fee == replies.fee,
        finished.transaction.total_script_key == replies.total_script_key,
        finished.transaction.total_script_nonce@ == point_add(
            point_sum(request.script_signature_public_nonces@),
            replies.own_script_nonce@,
        ),
        finished.transaction.total_metadata_nonce@ == point_add(
            point_sum(request.metadata_ephemeral_public_key_shares@),
            replies.own_metadata_nonce@,
        ),
        finished.transaction.shared_secret@ == point_add(
            point_sum(request.dh_shared_secret_shares@),
            replies.own_secret@,
        ),
        valid_point(finished.transaction.total_script_nonce@),
        valid_point(finished.transaction.total_metadata_nonce@),
        valid_point(finished.transaction.shared_secret@),
        finished.output_hashes == replies.output_hashes,
        all_points(replies.outputs@) && all_points(replies.inputs@) && all_points(replies.kernels@),
{
}

/// What the wallet signs its part of the script signature with belongs to the total that the parties sign for: the sum of
/// all parties' script nonces, which with the wallet's own nonce is the total nonce, and the sum of the keys that signed
/// but for the wallet's own.
pub proof fn law_input_order_is_of_the_script_nonces(
    finished: FinishedTransaction,
    request: EncumberRequest,
    tx_id: u64,
    fetched: Seq<FetchedOutput>,
    replies: WalletReplies,
    order: InputOrder,
    keys: Seq<CompressedPublicKey>,
    threshold: u8,
)
    requires
        finished.is_run(request, tx_id, fetched, replies),
        finished.updated.nonces.is_order(order),
        multisig_components(fetched.last().script.script@) == Some((keys, threshold)),
    ensures
        order.nonce_shares@ == point_sum(request.script_signature_public_nonces@),
        point_add(order.nonce_shares@, replies.own_script_nonce@) == finished.transaction.total_script_nonce@,
        order.script_key_shares@ == point_sum(
            co_signing_keys(
                keys,
                request.script_input_shares@.insert(replies.own_key, replies.own_signature),
                replies.own_key,
            ),
        ),
{
}

/// The same holds of an input order at any stage that was reached: its nonces are the parties' script nonces, and with the
/// wallet's own they are the total.
pub proof fn law_traced_input_order_is_of_the_script_nonces(input: UpdatedInput, order: InputOrder)
    requires
        input.traced(),
        input.nonces.is_order(order),
    ensures
        order.nonce_shares@ == point_sum(input.spend().signed.opened.request.script_signature_public_nonces@),
        point_add(order.nonce_shares@, input.own_nonce@) == input.total_nonce@,
{
}

/// What the wallet builds the new output with belongs to the totals that the parties sign for: the sum of all parties'
/// nonces for the metadata signature, which with the wallet's own nonce is the total nonce, and the sum of all parties'
/// sender offset keys, which with the wallet's own is the sender offset key of the output. The sender offset key that
/// signs is the one that the shared secret is made with, the other half of the secret is the recipient's view key, and
/// the script key comes from the recipient's spend key.
pub proof fn law_output_order_is_of_the_shares(
    finished: FinishedTransaction,
    request: EncumberRequest,
    tx_id: u64,
    fetched: Seq<FetchedOutput>,
    replies: WalletReplies,
    script_key: CompressedPublicKey,
    order: OutputOrder<'_>,
    key_id: TariKeyId,
    view_key: CompressedPublicKey,
    spend_key: CompressedPublicKey,
)
    requires
        finished.is_run(request, tx_id, fetched, replies),
        finished.updated.nonces.built.nonces.is_order(script_key, order),
        finished.updated.shared().asked.are_secret_keys(key_id, view_key),
        finished.updated.nonces.built.nonces.is_recipient(spend_key),
    ensures
        order.nonce_shares@ == point_sum(request.metadata_ephemeral_public_key_shares@),
        point_add(order.nonce_shares@, replies.own_metadata_nonce@) == finished.transaction.total_metadata_nonce@,
        order.sender_offset_shares@ == point_sum(request.sender_offset_public_key_shares@),
        order.sender_offset_public_key@ == point_add(order.sender_offset_shares@, replies.own_offset@),
        *order.sender_offset_key == replies.sender_offset_key,
        key_id == replies.sender_offset_key,
        request.recipient_address.public_view_key == Some(view_key),
        spend_key == request.recipient_address.public_spend_key,
        order.script.script@.len() == 1,
        order.script.script@[0] == Opcode::PushPubKey(script_key),
        order.amount == finished.transaction.amount,
        order.payment_id@ == request.tx_payment_id@,
        order.minimum_value_promise == request.minimum_value_promise,
        order.spending_key@ == shared_secret_spending_key(finished.transaction.shared_secret@),
        order.encryption_key@ == shared_secret_encryption_key(finished.transaction.shared_secret@),
{
}

/// What the wallet starts the transaction with is what the request says: it pays the amount to the recipient's address
/// and, until the output gets its own script, to the recipient's spend key, with the features and the promise that were
/// asked for. The leader's address gets change that no key could spend, and there are no covenants, no kernel features and
/// no lock. The transaction keeps the payment id of the spent output.
pub proof fn law_transaction_order_is_of_the_request(
    finished: FinishedTransaction,
    request: EncumberRequest,
    tx_id: u64,
    fetched: Seq<FetchedOutput>,
    replies: WalletReplies,
    order: TransactionOrder<'_>,
    confirmation: Confirmation,
    message: [u8; 32],
)
    requires
        finished.is_run(request, tx_id, fetched, replies),
        finished.updated.spend().is_order(order),
        finished.updated.spend().is_confirmation(confirmation),
        finished.updated.spend().signed.opened.is_message(message),
    ensures
        message == request.expected_commitment,
        confirmation.tx_id == finished.transaction.tx_id,
        confirmation.change@.len() == 0,
        order.input == request.expected_commitment,
        order.amount == finished.transaction.amount,
        order.input_value == order.amount + replies.weight.payment_fee(request.fee_per_gram),
        order.fee_per_gram == request.fee_per_gram,
        order.prevent_fee_gt_amount == request.prevent_fee_gt_amount,
        order.lock_height == 0 && order.kernel_features == 0,
        order.recipient_script.script@.len() == 1,
        order.recipient_script.script@[0] == Opcode::PushPubKey(request.recipient_address.public_spend_key),
        order.recipient_address.public_view_key == request.recipient_address.public_view_key,
        order.recipient_address.public_spend_key == request.recipient_address.public_spend_key,
        order.recipient_address.encoded@ == request.recipient_address.encoded@,
        order.maturity == request.original_maturity,
        order.range_proof_type == request.range_proof_type,
        order.minimum_value_promise == request.minimum_value_promise,
        order.covenant@.len() == 0 && order.change.covenant@.len() == 0 && order.change.input_data@.len() == 0,
        order.change.script.script@.len() == 1,
        order.change.script.script@[0] matches Opcode::PushPubKey(key) && key@ == zero_bytes(),
        order.change.script_key_id is Zero && order.change.commitment_mask_key_id is Zero,
        order.change.address.public_view_key == request.own_address.public_view_key,
        order.change.address.public_spend_key == request.own_address.public_spend_key,
        order.change.address.encoded@ == request.own_address.encoded@,
        decryption(
            public_key_encryption_key(point_sum(finished.updated.spend().signed.opened.keys@)),
            request.expected_commitment@,
            fetched.last().encrypted_data@,
        ) == Some((order.input_value, finished.updated.spend().signed.opened.secrets.mask@, order.payment_id@)),
{
}

/// What the wallet records is the transaction that the parties sign: pending, from the leader to the recipient, of the
/// same name, amount and fee, with the payment id that it was started with and all its outputs sent.
pub proof fn law_record_is_of_the_transaction(
    finished: FinishedTransaction,
    request: EncumberRequest,
    tx_id: u64,
    fetched: Seq<FetchedOutput>,
    replies: WalletReplies,
    order: TransactionOrder<'_>,
    record: TransactionRecord<'_>,
)
    requires
        finished.is_run(request, tx_id, fetched, replies),
        finished.updated.spend().is_order(order),
        finished.is_record(record),
    ensures
        record.tx_id == tx_id && record.tx_id == finished.transaction.tx_id,
        record.source.public_view_key == request.own_address.public_view_key,
        record.source.public_spend_key == request.own_address.public_spend_key,
        record.source.encoded@ == request.own_address.encoded@,
        record.destination.public_view_key == request.recipient_address.public_view_key,
        record.destination.public_spend_key == request.recipient_address.public_spend_key,
        record.destination.encoded@ == request.recipient_address.encoded@,
        record.amount == order.amount && record.amount == finished.transaction.amount,
        record.fee == replies.fee && record.fee == finished.transaction.fee,
        record.status is Pending,
        record.direction is Outbound,
        record.mined_height is None,
        record.payment_id@ == order.payment_id@,
        record.sent_output_hashes@ == replies.output_hashes@,
        record.received_output_hashes@.len() == 0,
        record.change_output_hashes@.len() == 0,
{
}

/// Only a transaction that was recorded is given to the parties, and it is the one that was finished. Where it was not
/// recorded, the error ends with the wallet's words.
pub proof fn law_only_recorded_transactions_are_given(
    finished: FinishedTransaction,
    reply: Result<(), String>,
    r: Result<EncumberedTransaction, CommandError>,
)
    requires
        finished.is_recorded(reply, r),
    ensures
        reply is Ok <==> r is Ok,
        r matches Ok(transaction) ==> transaction == finished.transaction,
        r matches Err(e) ==> (e matches CommandError::General(text) && text@.len() >= reply->Err_0@.len()
            && text@.skip(text@.len() - reply->Err_0@.len()) == reply->Err_0@),
{
    if let Err(words) = reply {
        let start = "Failed to insert completed transaction: "@;
        assert((start + words@).skip(start.len() as int) =~= words@);
    }
}

/// The signatures that the script gets are those of its keys, in the order of the keys: the wallet's own where the wallet
/// has one, else what the parties gave. There are as many as the script asks for.
pub proof fn law_script_gets_the_signatures_of_its_keys(
    opened: OpenedInput,
    own_key: CompressedPublicKey,
    own_signature: CheckSigSchnorrSignature,
    signed: SignedInput,
    i: int,
)
    requires
        opened.is_signed(own_key, own_signature, Ok(signed)),
        0 <= i < signed.signatures@.len(),
    ensures
        signed.signatures@.len() == opened.threshold,
        signing_keys(opened.keys@, signed.shares()).len() == signed.signatures@.len(),
        ({
            let key = signing_keys(opened.keys@, signed.shares())[i];
            &&& opened.keys@.contains(key)
            &&& key == own_key ==> signed.signatures@[i] == own_signature
            &&& key != own_key ==> opened.request.script_input_shares@.dom().contains(key) && signed.signatures@[i]
                == opened.request.script_input_shares@[key]
        }),
{
    law_signatures_are_those_of_the_keys(opened.keys@, signed.shares());
    assert(signing_keys(opened.keys@, signed.shares())[i] == signing_keys(opened.keys@, signed.shares())[i]);
}

/// An output is refused exactly where something is wrong with it: the node has none, its commitment is another than the
/// one that was asked for, its script is no multisig script, a key of the script is no point, its secrets cannot be
/// opened, or they do not open the commitment.
pub proof fn law_only_the_right_output_is_opened(
    request: EncumberRequest,
    tx_id: u64,
    fetched: Seq<FetchedOutput>,
    r: Result<OpenedInput, CommandError>,
)
    requires
        is_opening(request, tx_id, fetched, r),
    ensures
        r is Ok ==> fetched.len() > 0 && fetched.last().commitment == request.expected_commitment && (
        multisig_components(fetched.last().script.script@) matches Some((keys, threshold)) && all_points(keys) && (
        decryption(
            public_key_encryption_key(point_sum(keys)),
            request.expected_commitment@,
            fetched.last().encrypted_data@,
        ) matches Some((value, mask, payment_id)) && mask_check(request.expected_commitment@, mask, value)
            == Ok::<bool, Seq<char>>(true) && r->Ok_0.secrets@ == (value, mask, payment_id) && r->Ok_0.keys@ == keys
            && r->Ok_0.threshold == threshold && r->Ok_0.tx_id == tx_id && r->Ok_0.request == request)),
        fetched.len() == 0 ==> r matches Err(CommandError::InvalidArgument(_)),
        fetched.len() > 0 && fetched.last().commitment != request.expected_commitment ==> r matches Err(
            CommandError::InvalidArgument(_),
        ),
        fetched.len() > 0 && fetched.last().commitment == request.expected_commitment && multisig_components(
            fetched.last().script.script@,
        ) is None ==> r matches Err(CommandError::OutputManagerError(OutputManagerError::ServiceError(_))),
        (fetched.len() > 0 && fetched.last().commitment == request.expected_commitment && (multisig_components(
            fetched.last().script.script@,
        ) matches Some((keys, threshold)) && all_points(keys) && (decryption(
            public_key_encryption_key(point_sum(keys)),
            request.expected_commitment@,
            fetched.last().encrypted_data@,
        ) matches Some((value, mask, payment_id)) && mask_check(request.expected_commitment@, mask, value)
            == Ok::<bool, Seq<char>>(true)))) ==> r is Ok,
{
}

/// The error of a step of the wallet ends with the words of the reason, whatever the step, the transaction and the reason
/// are.
pub proof fn law_failures_give_their_reason(step: WalletStep, tx_id: u64, reason: Seq<char>)
    ensures
        step.words(tx_id, reason).len() > reason.len(),
        step.words(tx_id, reason).skip(step.words(tx_id, reason).len() - reason.len()) == reason,
        step.words(tx_id, reason).take(step.words(tx_id, reason).len() - reason.len()) == step.words(
            tx_id,
            Seq::empty(),
        ),
{
    reveal_strlit(": ");
    reveal_strlit("Failed to change recipient sender offset private key: ");
    reveal_strlit("Failed to build single round message: ");
    reveal_strlit("Failed to get single round message: ");
    reveal_strlit("Failed to get signed data: ");
    reveal_strlit("Failed to add presigned recipient info: ");
    reveal_strlit("Failed to get transaction: ");
    reveal_strlit("Failed to get fee amount: ");
    let none = step.words(tx_id, Seq::empty());
    let all = step.words(tx_id, reason);
    assert(all =~= none + reason);
    assert(all.skip(all.len() - reason.len()) =~= reason);
    assert(all.take(all.len() - reason.len()) =~= none);
}

/// The wallet takes its sender offset key from the branch for outputs that the recipient takes no part in making, and never
/// from the branch that a session's script key is of.
pub proof fn law_sender_offset_key_is_of_its_own_branch(
    spend: PlannedSpend,
    branch: Seq<char>,
    session_id: Seq<char>,
    script_key: TariKeyId,
)
    requires
        spend.is_branch(branch),
        is_script_key(session_id, script_key),
    ensures
        branch == "one sided sender offset"@,
        script_key matches TariKeyId::Managed { branch: other, index } && other@ != branch,
{
    reveal_strlit("sender offset");
    reveal_strlit("one sided sender offset");
    assert("sender offset"@.len() != "one sided sender offset"@.len());
}

/// The wallet's own signature is taken exactly where the keys that signed are points and there are as many signatures as the
/// script asks for, with the wallet's own in place of one that a party gave for the same key.
pub proof fn law_signatures_are_as_many_as_the_script_asks_for(
    opened: OpenedInput,
    own_key: CompressedPublicKey,
    own_signature: CheckSigSchnorrSignature,
    r: Result<SignedInput, CommandError>,
)
    requires
        opened.is_signed(own_key, own_signature, r),
    ensures
        ({
            let shares = opened.request.script_input_shares@.insert(own_key, own_signature);
            let signing = signing_keys(opened.keys@, shares);
            &&& r is Ok <==> all_points(co_signing_keys(opened.keys@, shares, own_key)) && signing.len()
                == opened.threshold
            &&& r matches Ok(signed) ==> signed.own_key == own_key && signed.own_signature == own_signature
                && signed.script_key_shares@ == point_sum(co_signing_keys(opened.keys@, shares, own_key))
                && signed.opened == opened
        }),
{
    let shares = opened.request.script_input_shares@.insert(own_key, own_signature);
    law_signatures_are_those_of_the_keys(opened.keys@, shares);
}

/// A planned spend goes on exactly where the output manager confirmed it, the wallet has a sender offset key, all secrets
/// are points and the recipient has a view key.
pub proof fn law_spend_goes_on_where_all_is_there(
    spend: PlannedSpend,
    reply: Result<(), OutputManagerError>,
    confirmed: Result<ConfirmedSpend, CommandError>,
    sender_offset_key: Result<Option<TariKeyId>, String>,
    asked: Result<SecretRequest, CommandError>,
    own_secret: CompressedPublicKey,
    shared: Result<SharedSecret, CommandError>,
)
    requires
        spend.is_confirmed(reply, confirmed),
        (ConfirmedSpend { spend }).is_asked(sender_offset_key, asked),
        asked matches Ok(request) ==> request.is_shared(own_secret, shared),
    ensures
        confirmed is Ok <==> reply is Ok,
        confirmed matches Ok(stage) ==> stage.spend == spend,
        reply matches Err(reason) ==> confirmed == Err::<ConfirmedSpend, CommandError>(
            CommandError::OutputManagerError(reason),
        ),
        asked is Ok <==> (sender_offset_key matches Ok(Some(key)) && all_points(
            spend.signed.opened.request.dh_shared_secret_shares@,
        ) && spend.signed.opened.request.recipient_address.public_view_key is Some),
        asked is Ok ==> (shared is Ok <==> valid_point(own_secret@)),
{
}

/// A transaction whose secret is shared goes on exactly where all keys, nonces, commitments and excesses that come in are
/// points.
pub proof fn law_transaction_goes_on_where_all_are_points(
    shared: SharedSecret,
    own_offset: CompressedPublicKey,
    sender: Result<SenderOffset, CommandError>,
    metadata: Result<MetadataNonces, CommandError>,
    own_metadata_nonce: CompressedPublicKey,
    built: Result<BuiltOutput, CommandError>,
    nonces: Result<ScriptNonces, CommandError>,
    own_script_nonce: CompressedPublicKey,
    total_script_key: CompressedPublicKey,
    updated: Result<UpdatedInput, CommandError>,
    fee: u64,
    outputs: Seq<CompressedCommitment>,
    inputs: Seq<CompressedCommitment>,
    kernels: Seq<CompressedCommitment>,
    output_hashes: Vec<FixedHash>,
    finished: Result<FinishedTransaction, CommandError>,
)
    requires
        shared.is_offset(own_offset, sender),
        sender matches Ok(stage) ==> stage.is_summed(metadata),
        sender is Ok && metadata is Ok ==> metadata->Ok_0.is_built(own_metadata_nonce, built),
        sender is Ok && metadata is Ok && built is Ok ==> built->Ok_0.is_summed(nonces),
        sender is Ok && metadata is Ok && built is Ok && nonces is Ok ==> nonces->Ok_0.is_updated(
            own_script_nonce,
            total_script_key,
            updated,
        ),
        sender is Ok && metadata is Ok && built is Ok && nonces is Ok && updated is Ok ==> updated->Ok_0.is_finished(
            fee,
            outputs,
            inputs,
            kernels,
            output_hashes,
            finished,
        ),
    ensures
        ({
            let request = shared.asked.spend.signed.opened.request;
            &&& sender is Ok <==> all_points(request.sender_offset_public_key_shares@) && valid_point(own_offset@)
            &&& sender is Ok ==> (metadata is Ok <==> all_points(request.metadata_ephemeral_public_key_shares@))
            &&& sender is Ok && metadata is Ok ==> (built is Ok <==> valid_point(own_metadata_nonce@))
            &&& sender is Ok && metadata is Ok && built is Ok ==> (nonces is Ok <==> all_points(
                request.script_signature_public_nonces@,
            ))
            &&& sender is Ok && metadata is Ok && built is Ok && nonces is Ok ==> (updated is Ok <==> valid_point(
                own_script_nonce@,
            ))
            &&& sender is Ok && metadata is Ok && built is Ok && nonces is Ok && updated is Ok ==> (finished is Ok
                <==> all_points(outputs) && all_points(inputs) && all_points(kernels))
        }),
{
}

} // verus!
