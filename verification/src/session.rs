//! The leader's part: making a multisig output, and opening a session that spends one.
use crate::crypto::decrypt_data;
use crate::crypto::decryption;
use crate::crypto::mask_check;
use crate::crypto::public_key_encryption_key;
use crate::encumber::is_general;
use crate::encumber::multisig_encryption_key;
use crate::error::CommandError;
use crate::error::OutputManagerError;
use crate::hex::encode;
use crate::hex::hex_decode;
use crate::hex::hex_text;
use crate::hex::law_hex_text_is_read_back;
use crate::hex::lemma_hex_text_is_injective;
use crate::keys::valid_point;
use crate::keys::CompressedCommitment;
use crate::keys::CompressedPublicKey;
use crate::keys::PrivateKey;
use crate::script::all_points;
use crate::script::derive_multisig_recovery_key_id;
use crate::script::find_multisig_components;
use crate::script::holds_multisig;
use crate::script::is_key_error;
use crate::script::is_sum_failure;
use crate::script::multisig_components;
use crate::script::point_sum;
use crate::script::sum_public_keys_to_encryption_key;
use crate::script::Opcode;
use crate::script::TariScript;
use crate::text::enclosed;
use crate::text::joined;
use crate::types::DbWalletOutput;
use crate::types::MultisigOutput;
use crate::types::TariAddress;
use crate::utxo::first_with_commitment;
use crate::utxo::get_utxo_by_commitment_hash;
use crate::utxo::law_first_with_commitment;
use crate::weight::RangeProofType;
use chrono::Utc;
use vstd::prelude::*;

verus! {

/// What a leader opens a session with.
pub struct CreateMultisigUtxoTransferLeaderArgs {
    /// The commitment of the output to spend, in hexadecimal.
    pub utxo_commitment_hash: String,
    /// How many parties must sign.
    pub m: u8,
    /// The spend keys of the parties.
    pub public_keys: Vec<CompressedPublicKey>,
    /// Where the value goes.
    pub recipient_address: TariAddress,
}

/// Whether a character is a decimal digit.
pub open spec fn is_digit(c: char) -> bool {
    '0' <= c && c <= '9'
}

/// The number that two digits of a text stand for.
pub open spec fn two_digits(text: Seq<char>, i: int) -> int {
    10 * (text[i] as int - '0' as int) + (text[i + 1] as int - '0' as int)
}

/// Whether a text is a time: it ends in at least four digits of a year and two digits each of a month, a day, an hour,
/// a minute and a second, which can be a leap second.
pub open spec fn is_time(text: Seq<char>) -> bool {
    let n = text.len() as int;
    &&& n >= 14
    &&& forall|i: int| n - 14 <= i < n ==> is_digit(#[trigger] text[i])
    &&& 1 <= two_digits(text, n - 10) <= 12
    &&& 1 <= two_digits(text, n - 8) <= 31
    &&& 0 <= two_digits(text, n - 6) <= 23
    &&& 0 <= two_digits(text, n - 4) <= 59
    &&& 0 <= two_digits(text, n - 2) <= 60
}

/// Calls `Utc::now` of `chrono` and formats the time with the year, the month, the day, the hour, the minute and
/// the second. The year has at least four digits, after a sign where it is not one of four digits, and the others have
/// two. Which time it is depends on the call.
#[verifier::external_body]
fn time_stamp() -> (text: String)
    ensures
        is_time(text@),
{
    format!("{}", Utc::now().format("%Y%m%d%H%M%S"))
}

/// Whether a result is the session with a given name that spends the output with a given commitment, or the
/// error why there is none. The first thing that is wrong decides.
pub open spec fn is_session(
    session_id: Seq<char>,
    utxos: Seq<DbWalletOutput>,
    args: CreateMultisigUtxoTransferLeaderArgs,
    r: Result<MultisigOutput, CommandError>,
) -> bool {
    match first_with_commitment(utxos, args.utxo_commitment_hash@) {
        None => r matches Err(e) && is_general(
            e,
            "UTXO with commitment hash "@ + args.utxo_commitment_hash@ + " not found"@,
        ),
        Some(utxo) => match multisig_components(utxo.wallet_output.script.script@) {
            None => {
                &&& r matches Err(CommandError::OutputManagerError(OutputManagerError::ServiceError(words)))
                &&& words@ == "Invalid script"@
            },
            Some((keys, threshold)) => if !all_points(keys) {
                r matches Err(e) && is_key_error(e)
            } else {
                match decryption(
                    multisig_encryption_key(keys),
                    utxo.commitment@,
                    utxo.wallet_output.encrypted_data@,
                ) {
                    None => r matches Err(e) && is_general(e, "Failed to decrypt output secrets"@),
                    Some((value, mask, payment_id)) => {
                        &&& r matches Ok(output)
                        &&& output.session_id@ == session_id
                        &&& output.utxos@.len() == 1
                        &&& output.utxos@[0]@ == hex_text(utxo.hash@)
                        &&& output.commitments@.len() == 1
                        &&& output.commitments@[0]@ == hex_text(utxo.commitment@)
                        &&& output.minimum_signatures == args.m
                        &&& output.parties_public_keys == args.public_keys
                        &&& output.fee_per_gram == 1
                        &&& output.value == utxo.wallet_output.value
                        &&& output.recipient_address == args.recipient_address
                        &&& output.commitment_mask@ == mask
                    },
                }
            },
        },
    }
}

/// Opens a session with a given name.
pub fn create_named_multisig_output(
    session_id: String,
    utxos: &[DbWalletOutput],
    args: CreateMultisigUtxoTransferLeaderArgs,
) -> (r: Result<MultisigOutput, CommandError>)
    ensures
        is_session(session_id@, utxos@, args, r),
{
    let utxo = match get_utxo_by_commitment_hash(utxos, args.utxo_commitment_hash.clone()) {
        Some(utxo) => utxo,
        None => {
            return Err(
                CommandError::General(
                    enclosed("UTXO with commitment hash ", args.utxo_commitment_hash.as_str(), " not found"),
                ),
            );
        },
    };
    let mut hashes: Vec<String> = Vec::new();
    hashes.push(encode(&utxo.hash));
    let mut commitments: Vec<String> = Vec::new();
    commitments.push(encode(&utxo.commitment));
    let (keys, _) = match find_multisig_components(&utxo.wallet_output.script) {
        Some(components) => components,
        None => {
            return Err(
                CommandError::OutputManagerError(OutputManagerError::ServiceError("Invalid script".to_owned())),
            );
        },
    };
    let encryption_key = match sum_public_keys_to_encryption_key(keys.as_slice()) {
        Ok(key) => key,
        Err(e) => {
            return Err(e);
        },
    };
    match decrypt_data(&encryption_key, &utxo.commitment, utxo.wallet_output.encrypted_data.as_slice()) {
        Some(secrets) => Ok(
            MultisigOutput {
                session_id,
                utxos: hashes,
                commitments,
                minimum_signatures: args.m,
                parties_public_keys: args.public_keys,
                fee_per_gram: 1,
                value: utxo.wallet_output.value,
                recipient_address: args.recipient_address,
                commitment_mask: secrets.mask,
            },
        ),
        None => Err(CommandError::General("Failed to decrypt output secrets".to_owned())),
    }
}

/// Opens a session that is named after the time. Which time that is depends on the call.
pub fn create_multisig_output(utxos: &[DbWalletOutput], args: CreateMultisigUtxoTransferLeaderArgs) -> (r: Result<
    MultisigOutput,
    CommandError,
>)
    ensures
        exists|session_id: Seq<char>| is_time(session_id) && #[trigger] is_session(session_id, utxos@, args, r),
{
    let session_id = time_stamp();
    let ghost name = session_id@;
    let r = create_named_multisig_output(session_id, utxos, args);
    assert(is_time(name) && is_session(name, utxos@, args, r));
    r
}

/// A multisig output whose keys are being derived.
pub struct UtxoBuilding {
    /// The value of the output.
    pub value: u64,
    /// How many parties must sign.
    pub m: u8,
    /// How many parties there are.
    pub n: u8,
    /// The spend keys of the parties.
    pub public_keys: Vec<CompressedPublicKey>,
    /// The script keys of the leading parties.
    pub ephemeral_pubkeys: Vec<CompressedPublicKey>,
}

/// What the wallet is asked for while a multisig output is made.
pub enum BuildStep {
    /// The script key of the party with the given spend key.
    DeriveKey(UtxoBuilding, CompressedPublicKey),
    /// Nothing: all script keys are there.
    Derived(UtxoBuilding),
}

/// A multisig output. The wallet is asked to import the recovery key, to encrypt the output's secrets with it, and
/// to send the value to the output.
pub struct BuiltUtxo {
    /// The value of the output.
    pub value: u64,
    /// The script of the output.
    pub script: TariScript,
    /// The maturity of the output.
    pub maturity: u64,
    /// How the value of the output is proved to be in range.
    pub range_proof_type: RangeProofType,
    /// The input data of the output, in bytes.
    pub input_data: Vec<u8>,
    /// The key that the output's secrets are encrypted with.
    pub recovery_key: PrivateKey,
    /// The payment id of the output, as JSON text, if it has one.
    pub payment_id: Option<Vec<u8>>,
    /// The fee in micro Minotari per gram.
    pub fee_per_gram: u64,
}

/// Starts making a multisig output of the value of an output.
pub fn make_utxo_multisig(utxo: &DbWalletOutput, m: u8, n: u8, public_keys: Vec<CompressedPublicKey>) -> (building:
    UtxoBuilding)
    ensures
        building.is_start(*utxo, m, n, public_keys),
{
    UtxoBuilding { value: utxo.wallet_output.value, m, n, public_keys, ephemeral_pubkeys: Vec::new() }
}

impl UtxoBuilding {
    /// Whether this is where a multisig output of the value of an output is started: no script key is there yet.
    pub open spec fn is_start(
        self,
        utxo: DbWalletOutput,
        m: u8,
        n: u8,
        public_keys: Vec<CompressedPublicKey>,
    ) -> bool {
        &&& self.value == utxo.wallet_output.value
        &&& self.m == m
        &&& self.n == n
        &&& self.public_keys == public_keys
        &&& self.ephemeral_pubkeys@ == Seq::<CompressedPublicKey>::empty()
    }

    /// Whether a step is what comes next: the script key of the party that has none yet, or nothing.
    pub open spec fn is_next(self, step: BuildStep) -> bool {
        match step {
            BuildStep::DeriveKey(building, key) => {
                &&& building == self
                &&& self.ephemeral_pubkeys@.len() < self.public_keys@.len()
                &&& key == self.public_keys@[self.ephemeral_pubkeys@.len() as int]
            },
            BuildStep::Derived(building) => {
                &&& building == self
                &&& self.ephemeral_pubkeys@.len() >= self.public_keys@.len()
            },
        }
    }

    /// Whether an output has one script key more, and is the same otherwise.
    pub open spec fn is_extended(self, key: CompressedPublicKey, building: Self) -> bool {
        &&& building.value == self.value
        &&& building.m == self.m
        &&& building.n == self.n
        &&& building.public_keys == self.public_keys
        &&& building.ephemeral_pubkeys@ == self.ephemeral_pubkeys@.push(key)
    }

    /// Asks for the script key of the party that comes next.
    pub fn next(self) -> (step: BuildStep)
        ensures
            self.is_next(step),
    {
        let i = self.ephemeral_pubkeys.len();
        if i < self.public_keys.len() {
            let key = self.public_keys[i];
            BuildStep::DeriveKey(self, key)
        } else {
            BuildStep::Derived(self)
        }
    }

    /// Takes the script key of the party that comes next.
    pub fn derived(self, key: CompressedPublicKey) -> (building: Self)
        ensures
            self.is_extended(key, building),
    {
        let mut building = self;
        building.ephemeral_pubkeys.push(key);
        building
    }

    /// Whether an output is the one that the parties' script keys lock, with a given message to sign.
    pub open spec fn is_built(self, commitment: CompressedCommitment, built: BuiltUtxo) -> bool {
        &&& built.value == self.value
        &&& built.script.script@ == seq![
            Opcode::CheckMultiSigVerifyAggregatePubKey(self.m, self.n, self.ephemeral_pubkeys, commitment),
        ]
        &&& built.maturity == 0
        &&& built.range_proof_type == RangeProofType::BulletProofPlus
        &&& built.input_data@ == Seq::<u8>::empty()
        &&& built.recovery_key@ == public_key_encryption_key(point_sum(self.ephemeral_pubkeys@))
        &&& built.payment_id is None
        &&& built.fee_per_gram == 1
    }

    /// Whether a result is the output that the parties' script keys lock, or the error that one of the keys is no point.
    pub open spec fn is_building(self, commitment: CompressedCommitment, r: Result<BuiltUtxo, CommandError>) -> bool {
        match r {
            Ok(built) => all_points(self.ephemeral_pubkeys@) && self.is_built(commitment, built),
            Err(e) => {
                &&& !all_points(self.ephemeral_pubkeys@)
                &&& e matches CommandError::General(words) && is_sum_failure(words@)
            },
        }
    }

    /// Makes the output that the parties' script keys lock, with its commitment as the message to sign.
    pub fn build(self, commitment: &CompressedCommitment) -> (r: Result<BuiltUtxo, CommandError>)
        ensures
            self.is_building(*commitment, r),
    {
        let recovery_key = match derive_multisig_recovery_key_id(self.ephemeral_pubkeys.as_slice()) {
            Ok(key) => key,
            Err(e) => {
                return Err(e);
            },
        };
        let mut script: Vec<Opcode> = Vec::new();
        script.push(
            Opcode::CheckMultiSigVerifyAggregatePubKey(self.m, self.n, self.ephemeral_pubkeys, *commitment),
        );
        assert(script@ =~= seq![
            Opcode::CheckMultiSigVerifyAggregatePubKey(self.m, self.n, self.ephemeral_pubkeys, *commitment),
        ]);
        Ok(
            BuiltUtxo {
                value: self.value,
                script: TariScript { script },
                maturity: 0,
                range_proof_type: RangeProofType::BulletProofPlus,
                input_data: Vec::new(),
                recovery_key,
                payment_id: None,
                fee_per_gram: 1,
            },
        )
    }
}

/// What the wallet sends to itself as a multisig output.
pub struct SendOrder<'a> {
    /// The value of the output.
    pub value: u64,
    /// The payment id, as JSON text, if there is one.
    pub payment_id: &'a Option<Vec<u8>>,
    /// The fee in micro Minotari per gram.
    pub fee_per_gram: u64,
}

/// What the wallet submits.
pub struct SubmitOrder<'a> {
    /// The name of the transaction.
    pub tx_id: u64,
    /// The amount of the transaction.
    pub amount: u64,
    /// The payment id, as JSON text, if there is one.
    pub payment_id: &'a Option<Vec<u8>>,
}

/// A multisig output for which there is a transaction. The wallet is asked to submit it.
pub struct SentUtxo {
    /// The stage before.
    pub built: BuiltUtxo,
    /// The name of the transaction.
    pub tx_id: u64,
}

impl BuiltUtxo {
    /// Whether an order is the one for this output: its value, its payment id and its fee.
    pub open spec fn is_order(self, order: SendOrder<'_>) -> bool {
        &&& order.value == self.value
        &&& *order.payment_id == self.payment_id
        &&& order.fee_per_gram == self.fee_per_gram
    }

    /// What the wallet is asked to send to itself.
    pub fn order(&self) -> (order: SendOrder<'_>)
        ensures
            self.is_order(order),
    {
        SendOrder { value: self.value, payment_id: &self.payment_id, fee_per_gram: self.fee_per_gram }
    }

    /// Whether a result is the stage with the name of the transaction, or the error that there is none.
    pub open spec fn is_sent(self, reply: Result<u64, String>, r: Result<SentUtxo, CommandError>) -> bool {
        match reply {
            Ok(tx_id) => r matches Ok(sent) && sent.built == self && sent.tx_id == tx_id,
            Err(words) => r matches Err(e) && is_general(e, "Failed to send to self: "@ + words@),
        }
    }

    /// Takes the name of the transaction that sends the output.
    pub fn sent(self, reply: Result<u64, String>) -> (r: Result<SentUtxo, CommandError>)
        ensures
            self.is_sent(reply, r),
    {
        match reply {
            Ok(tx_id) => Ok(SentUtxo { built: self, tx_id }),
            Err(words) => Err(CommandError::General(joined("Failed to send to self: ", words.as_str()))),
        }
    }
}

impl SentUtxo {
    /// Whether an order is the one for this transaction: its name, and the value and the payment id of the output.
    pub open spec fn is_order(self, order: SubmitOrder<'_>) -> bool {
        &&& order.tx_id == self.tx_id
        &&& order.amount == self.built.value
        &&& *order.payment_id == self.built.payment_id
    }

    /// What the wallet is asked to submit.
    pub fn order(&self) -> (order: SubmitOrder<'_>)
        ensures
            self.is_order(order),
    {
        SubmitOrder { tx_id: self.tx_id, amount: self.built.value, payment_id: &self.built.payment_id }
    }

    /// Whether a result is the name of the submitted transaction, or the error that it was not.
    pub open spec fn is_submitted(self, reply: Result<(), String>, r: Result<u64, CommandError>) -> bool {
        match reply {
            Ok(_) => r == Ok::<u64, CommandError>(self.tx_id),
            Err(words) => r matches Err(e) && is_general(e, "Failed to submit transaction: "@ + words@),
        }
    }

    /// Gives the name of the transaction, if it was submitted.
    pub fn submitted(self, reply: Result<(), String>) -> (r: Result<u64, CommandError>)
        ensures
            self.is_submitted(reply, r),
    {
        match reply {
            Ok(_) => Ok(self.tx_id),
            Err(words) => Err(CommandError::General(joined("Failed to submit transaction: ", words.as_str()))),
        }
    }
}

/// One turn of deriving the parties' script keys.
pub struct KeyRound {
    /// The spend key that a script key was asked for.
    pub asked: CompressedPublicKey,
    /// The script key.
    pub reply: CompressedPublicKey,
}

impl KeyRound {
    /// Whether the turn leads from one state to another.
    pub open spec fn leads(self, before: UtxoBuilding, after: UtxoBuilding) -> bool {
        &&& before.is_next(BuildStep::DeriveKey(before, self.asked))
        &&& before.is_extended(self.reply, after)
    }
}

/// Whether turns lead from where a multisig output is started to where all its script keys are there.
pub open spec fn is_derivation(buildings: Seq<UtxoBuilding>, rounds: Seq<KeyRound>) -> bool {
    &&& buildings.len() == rounds.len() + 1
    &&& buildings[0].ephemeral_pubkeys@.len() == 0
    &&& forall|i: int| 0 <= i < rounds.len() ==> (#[trigger] rounds[i]).leads(buildings[i], buildings[i + 1])
    &&& buildings.last().is_next(BuildStep::Derived(buildings.last()))
}

proof fn lemma_keys_of_rounds(buildings: Seq<UtxoBuilding>, rounds: Seq<KeyRound>)
    requires
        buildings.len() == rounds.len() + 1,
        buildings[0].ephemeral_pubkeys@.len() == 0,
        forall|i: int| 0 <= i < rounds.len() ==> (#[trigger] rounds[i]).leads(buildings[i], buildings[i + 1]),
    ensures
        buildings.last().value == buildings[0].value,
        buildings.last().m == buildings[0].m,
        buildings.last().n == buildings[0].n,
        buildings.last().public_keys == buildings[0].public_keys,
        buildings.last().ephemeral_pubkeys@.len() == rounds.len() <= buildings[0].public_keys@.len(),
        forall|i: int| 0 <= i < rounds.len() ==> #[trigger] rounds[i].asked == buildings[0].public_keys@[i],
        forall|i: int|
            0 <= i < rounds.len() ==> #[trigger] buildings.last().ephemeral_pubkeys@[i] == rounds[i].reply,
    decreases rounds.len(),
{
    if rounds.len() > 0 {
        let n = rounds.len() - 1;
        let fewer = buildings.drop_last();
        let turns = rounds.drop_last();
        assert forall|i: int| 0 <= i < n implies (#[trigger] turns[i]).leads(fewer[i], fewer[i + 1]) by {
            assert(rounds[i].leads(buildings[i], buildings[i + 1]));
        }
        lemma_keys_of_rounds(fewer, turns);
        let before = buildings[n];
        let after = buildings.last();
        assert(fewer.last() == before);
        assert(rounds[n].leads(before, buildings[n + 1]));
        assert forall|i: int| 0 <= i < rounds.len() implies #[trigger] rounds[i].asked
            == buildings[0].public_keys@[i] by {
            if i < n {
                assert(turns[i].asked == fewer[0].public_keys@[i]);
            }
        }
        assert forall|i: int| 0 <= i < rounds.len() implies #[trigger] after.ephemeral_pubkeys@[i]
            == rounds[i].reply by {
            if i < n {
                assert(before.ephemeral_pubkeys@[i] == turns[i].reply);
            }
        }
    }
}

/// A multisig output is made with one script key for each party: the wallet is asked for as many as there are parties,
/// for each once and in their order, and the script keys stand in that order.
pub proof fn law_one_script_key_for_each_party(buildings: Seq<UtxoBuilding>, rounds: Seq<KeyRound>)
    requires
        is_derivation(buildings, rounds),
    ensures
        rounds.len() == buildings[0].public_keys@.len(),
        forall|i: int| 0 <= i < rounds.len() ==> #[trigger] rounds[i].asked == buildings[0].public_keys@[i],
        buildings.last().ephemeral_pubkeys@.len() == buildings[0].public_keys@.len(),
        forall|i: int|
            0 <= i < rounds.len() ==> #[trigger] buildings.last().ephemeral_pubkeys@[i] == rounds[i].reply,
        buildings.last().value == buildings[0].value,
        buildings.last().m == buildings[0].m,
        buildings.last().n == buildings[0].n,
{
    lemma_keys_of_rounds(buildings, rounds);
}

/// A multisig output that was made is found to be one: its script gives the parties' script keys and the number of
/// signatures, and the key that opens a multisig output with this script is the one that its secrets were encrypted
/// with.
pub proof fn law_parties_recover_what_was_made(
    building: UtxoBuilding,
    commitment: CompressedCommitment,
    built: BuiltUtxo,
)
    requires
        building.is_built(commitment, built),
    ensures
        holds_multisig(built.script.script@),
        multisig_components(built.script.script@) == Some((building.ephemeral_pubkeys@, building.m)),
        built.recovery_key@ == multisig_encryption_key(multisig_components(built.script.script@)->Some_0.0),
{
    assert(built.script.script@[0] is CheckMultiSigVerifyAggregatePubKey);
}

/// The value of an output is turned into a multisig output whole: what the wallet sends to itself and what it submits is
/// that value, without a payment id and for one micro Minotari per gram, and a success gives the name of the transaction that the
/// wallet made.
pub proof fn law_whole_value_is_submitted(
    utxo: DbWalletOutput,
    m: u8,
    n: u8,
    public_keys: Vec<CompressedPublicKey>,
    buildings: Seq<UtxoBuilding>,
    rounds: Seq<KeyRound>,
    commitment: CompressedCommitment,
    built: BuiltUtxo,
    order: SendOrder<'_>,
    reply: Result<u64, String>,
    sent: SentUtxo,
    submission: SubmitOrder<'_>,
    submitted: Result<(), String>,
    tx_id: u64,
)
    requires
        is_derivation(buildings, rounds),
        buildings[0].is_start(utxo, m, n, public_keys),
        buildings.last().is_built(commitment, built),
        built.is_order(order),
        built.is_sent(reply, Ok(sent)),
        sent.is_order(submission),
        sent.is_submitted(submitted, Ok(tx_id)),
    ensures
        order.value == utxo.wallet_output.value,
        *order.payment_id is None,
        order.fee_per_gram == 1,
        submission.amount == utxo.wallet_output.value,
        *submission.payment_id is None,
        submission.tx_id == tx_id,
        reply == Ok::<u64, String>(tx_id),
        submitted is Ok,
{
    law_one_script_key_for_each_party(buildings, rounds);
}

impl BuiltUtxo {
    /// Whether encrypted data is what the wallet is asked to make for the output: opened with the recovery key, it holds
    /// the value, the mask and the payment id.
    pub open spec fn is_sealed(
        self,
        commitment: Seq<u8>,
        mask: Seq<u8>,
        payment_id: Seq<u8>,
        encrypted_data: Seq<u8>,
    ) -> bool {
        decryption(self.recovery_key@, commitment, encrypted_data) == Some((self.value, mask, payment_id))
    }

    /// Whether an unspent output is the one that was made, with a mask that opens its commitment.
    pub open spec fn is_unspent(self, mask: Seq<u8>, payment_id: Seq<u8>, utxo: DbWalletOutput) -> bool {
        &&& utxo.wallet_output.script.script@ == self.script.script@
        &&& utxo.wallet_output.value == self.value
        &&& self.is_sealed(utxo.commitment@, mask, payment_id, utxo.wallet_output.encrypted_data@)
        &&& mask_check(utxo.commitment@, mask, self.value) == Ok::<bool, Seq<char>>(true)
    }
}

/// Every party recovers a multisig output from its script alone: the key that belongs to the script keys in the script
/// opens the encrypted data, as the wallet is asked to make it, to the value of the output that was turned into the
/// multisig output, the mask and the payment id. The number of signatures in the script is the one that was asked for.
pub proof fn law_parties_recover_value_and_mask(
    utxo: DbWalletOutput,
    m: u8,
    n: u8,
    public_keys: Vec<CompressedPublicKey>,
    buildings: Seq<UtxoBuilding>,
    rounds: Seq<KeyRound>,
    commitment: CompressedCommitment,
    built: BuiltUtxo,
    mask: Seq<u8>,
    payment_id: Seq<u8>,
    encrypted_data: Seq<u8>,
)
    requires
        is_derivation(buildings, rounds),
        buildings[0].is_start(utxo, m, n, public_keys),
        buildings.last().is_built(commitment, built),
        built.is_sealed(commitment@, mask, payment_id, encrypted_data),
    ensures
        multisig_components(built.script.script@) matches Some((keys, threshold)) && threshold == m && keys.len()
            == public_keys@.len() && decryption(multisig_encryption_key(keys), commitment@, encrypted_data) == Some(
            (utxo.wallet_output.value, mask, payment_id),
        ),
{
    law_one_script_key_for_each_party(buildings, rounds);
    law_parties_recover_what_was_made(buildings.last(), commitment, built);
}

proof fn lemma_only_one_is_first(utxos: Seq<DbWalletOutput>, utxo: DbWalletOutput)
    requires
        utxos.contains(utxo),
        forall|i: int| 0 <= i < utxos.len() && (#[trigger] utxos[i]).commitment@ == utxo.commitment@ ==> utxos[i] == utxo,
    ensures
        first_with_commitment(utxos, hex_text(utxo.commitment@)) == Some(utxo),
    decreases utxos.len(),
{
    let at = choose|i: int| 0 <= i < utxos.len() && utxos[i] == utxo;
    if hex_text(utxos[0].commitment@) == hex_text(utxo.commitment@) {
        lemma_hex_text_is_injective(utxos[0].commitment@, utxo.commitment@);
    } else {
        let rest = utxos.skip(1);
        assert(rest[at - 1] == utxo);
        assert forall|i: int| 0 <= i < rest.len() && (#[trigger] rest[i]).commitment@ == utxo.commitment@ implies rest[i]
            == utxo by {
            assert(rest[i] == utxos[i + 1]);
        }
        lemma_only_one_is_first(rest, utxo);
    }
}

/// A session on a multisig output that was made is opened, and its mask opens the commitment: where the output is the one
/// among the unspent outputs with its commitment, naming that commitment gives a session with the value of the output
/// and with its mask, which the commitment is one to. This holds where the script keys are points; where they are not,
/// no multisig output is made.
pub proof fn law_session_has_the_mask_of_its_commitment(
    building: UtxoBuilding,
    message: CompressedCommitment,
    built: BuiltUtxo,
    mask: Seq<u8>,
    payment_id: Seq<u8>,
    utxo: DbWalletOutput,
    session_id: Seq<char>,
    utxos: Seq<DbWalletOutput>,
    args: CreateMultisigUtxoTransferLeaderArgs,
    r: Result<MultisigOutput, CommandError>,
)
    requires
        all_points(building.ephemeral_pubkeys@),
        building.is_built(message, built),
        built.is_unspent(mask, payment_id, utxo),
        utxos.contains(utxo),
        forall|i: int| 0 <= i < utxos.len() && (#[trigger] utxos[i]).commitment@ == utxo.commitment@ ==> utxos[i] == utxo,
        args.utxo_commitment_hash@ == hex_text(utxo.commitment@),
        is_session(session_id, utxos, args, r),
    ensures
        r matches Ok(output) && output.value == building.value && output.commitment_mask@ == mask
            && output.parties_public_keys == args.public_keys && output.commitments@.len() == 1
            && output.commitments@[0]@ == hex_text(utxo.commitment@) && mask_check(
            utxo.commitment@,
            output.commitment_mask@,
            output.value,
        ) == Ok::<bool, Seq<char>>(true),
{
    law_parties_recover_what_was_made(building, message, built);
    lemma_only_one_is_first(utxos, utxo);
}

/// A multisig output is locked as it was asked for: its script is one instruction, which asks for the number of signatures
/// and names the number of parties that were given, has one key for each party, in their order, and has the output's
/// commitment as its message. Where the number of parties is that of the public keys, it is that of the keys in the
/// script. The output can be spent at once.
pub proof fn law_script_is_what_was_asked_for(
    utxo: DbWalletOutput,
    m: u8,
    n: u8,
    public_keys: Vec<CompressedPublicKey>,
    buildings: Seq<UtxoBuilding>,
    rounds: Seq<KeyRound>,
    commitment: CompressedCommitment,
    built: BuiltUtxo,
)
    requires
        is_derivation(buildings, rounds),
        buildings[0].is_start(utxo, m, n, public_keys),
        buildings.last().is_built(commitment, built),
    ensures
        built.script.script@.len() == 1,
        built.script.script@[0] matches Opcode::CheckMultiSigVerifyAggregatePubKey(of, among, keys, message) && of == m
            && among == n && message == commitment && keys@.len() == public_keys@.len() && (public_keys@.len() == n
            ==> keys@.len() == among) && (forall|i: int|
            0 <= i < keys@.len() ==> #[trigger] keys@[i] == rounds[i].reply && rounds[i].asked == public_keys@[i])
            && built.recovery_key@ == public_key_encryption_key(point_sum(keys@)),
        built.value == utxo.wallet_output.value,
        built.maturity == 0,
        built.range_proof_type == RangeProofType::BulletProofPlus,
        built.input_data@.len() == 0,
        built.payment_id is None,
        built.fee_per_gram == 1,
{
    law_one_script_key_for_each_party(buildings, rounds);
    assert forall|i: int| 0 <= i < public_keys@.len() implies #[trigger] buildings.last().ephemeral_pubkeys@[i]
        == rounds[i].reply && rounds[i].asked == public_keys@[i] by {
        assert(rounds[i].asked == buildings[0].public_keys@[i]);
    }
}

/// A session is what the leader asked for: it has the given name, number of signatures, parties and recipient, and is on
/// the first unspent output with the given commitment. Its hash and its commitment are written so that they are read
/// back, and the session has the output's value and the mask that the key of all script keys opens it to.
pub proof fn law_session_is_what_the_leader_asked_for(
    session_id: Seq<char>,
    utxos: Seq<DbWalletOutput>,
    args: CreateMultisigUtxoTransferLeaderArgs,
    output: MultisigOutput,
)
    requires
        is_session(session_id, utxos, args, Ok(output)),
    ensures
        output.session_id@ == session_id,
        output.minimum_signatures == args.m,
        output.parties_public_keys@ == args.public_keys@,
        output.recipient_address.public_view_key == args.recipient_address.public_view_key,
        output.recipient_address.public_spend_key == args.recipient_address.public_spend_key,
        output.recipient_address.encoded@ == args.recipient_address.encoded@,
        output.fee_per_gram == 1,
        output.utxos@.len() == 1,
        output.commitments@.len() == 1,
        exists|i: int|
            {
                &&& 0 <= i < utxos.len()
                &&& hex_text((#[trigger] utxos[i]).commitment@) == args.utxo_commitment_hash@
                &&& forall|j: int| 0 <= j < i ==> hex_text((#[trigger] utxos[j]).commitment@) != args.utxo_commitment_hash@
                &&& hex_decode(output.commitments@[0]@) == Ok::<Seq<u8>, Seq<char>>(utxos[i].commitment@)
                &&& hex_decode(output.utxos@[0]@) == Ok::<Seq<u8>, Seq<char>>(utxos[i].hash@)
                &&& output.value == utxos[i].wallet_output.value
                &&& multisig_components(utxos[i].wallet_output.script.script@) matches Some((keys, threshold)) && (
                decryption(
                    public_key_encryption_key(point_sum(keys)),
                    utxos[i].commitment@,
                    utxos[i].wallet_output.encrypted_data@,
                ) matches Some((value, mask, payment_id)) && output.commitment_mask@ == mask)
            },
{
    law_first_with_commitment(utxos, args.utxo_commitment_hash@);
    let utxo = first_with_commitment(utxos, args.utxo_commitment_hash@)->Some_0;
    law_hex_text_is_read_back(utxo.commitment@);
    law_hex_text_is_read_back(utxo.hash@);
    let i = choose|i: int|
        {
            &&& 0 <= i < utxos.len()
            &&& #[trigger] utxos[i] == utxo
            &&& hex_text(utxos[i].commitment@) == args.utxo_commitment_hash@
            &&& forall|j: int| 0 <= j < i ==> hex_text((#[trigger] utxos[j]).commitment@) != args.utxo_commitment_hash@
        };
    assert(hex_text(utxos[i].commitment@) == args.utxo_commitment_hash@);
}

/// A session is refused exactly where no unspent output has the commitment, or the first that has it is not locked by
/// points with a multisig script, or its secrets cannot be opened with the key of all script keys.
pub proof fn law_session_needs_a_multisig_output(
    session_id: Seq<char>,
    utxos: Seq<DbWalletOutput>,
    args: CreateMultisigUtxoTransferLeaderArgs,
    r: Result<MultisigOutput, CommandError>,
    i: int,
)
    requires
        is_session(session_id, utxos, args, r),
    ensures
        (forall|j: int| 0 <= j < utxos.len() ==> hex_text((#[trigger] utxos[j]).commitment@) != args.utxo_commitment_hash@)
            ==> r is Err,
        0 <= i < utxos.len() && hex_text(utxos[i].commitment@) == args.utxo_commitment_hash@ && (forall|j: int|
            0 <= j < i ==> hex_text((#[trigger] utxos[j]).commitment@) != args.utxo_commitment_hash@) ==> (r is Ok <==> (
        multisig_components(utxos[i].wallet_output.script.script@) matches Some((keys, threshold)) && all_points(keys)
            && decryption(
            public_key_encryption_key(point_sum(keys)),
            utxos[i].commitment@,
            utxos[i].wallet_output.encrypted_data@,
        ) is Some)),
{
    law_first_with_commitment(utxos, args.utxo_commitment_hash@);
    if 0 <= i < utxos.len() && hex_text(utxos[i].commitment@) == args.utxo_commitment_hash@ && (forall|j: int|
        0 <= j < i ==> hex_text((#[trigger] utxos[j]).commitment@) != args.utxo_commitment_hash@) {
        let utxo = first_with_commitment(utxos, args.utxo_commitment_hash@)->Some_0;
        let k = choose|k: int|
            {
                &&& 0 <= k < utxos.len()
                &&& #[trigger] utxos[k] == utxo
                &&& hex_text(utxos[k].commitment@) == args.utxo_commitment_hash@
                &&& forall|j: int|
                    0 <= j < k ==> hex_text((#[trigger] utxos[j]).commitment@) != args.utxo_commitment_hash@
            };
        assert(k == i) by {
            if k < i {
                assert(hex_text(utxos[k].commitment@) != args.utxo_commitment_hash@);
            }
            if i < k {
                assert(hex_text(utxos[i].commitment@) != args.utxo_commitment_hash@);
            }
        }
    }
}

/// The commitment in a session finds the output that the session was opened for.
pub proof fn law_session_finds_its_output(
    session_id: Seq<char>,
    utxos: Seq<DbWalletOutput>,
    args: CreateMultisigUtxoTransferLeaderArgs,
    output: MultisigOutput,
)
    requires
        is_session(session_id, utxos, args, Ok(output)),
    ensures
        output.commitments@.len() == 1,
        first_with_commitment(utxos, output.commitments@[0]@) == first_with_commitment(
            utxos,
            args.utxo_commitment_hash@,
        ),
        first_with_commitment(utxos, output.commitments@[0]@) is Some,
{
    lemma_found_has_commitment(utxos, args.utxo_commitment_hash@);
}

proof fn lemma_found_has_commitment(utxos: Seq<DbWalletOutput>, commitment_hash: Seq<char>)
    ensures
        first_with_commitment(utxos, commitment_hash) matches Some(utxo) ==> hex_text(utxo.commitment@)
            == commitment_hash,
    decreases utxos.len(),
{
    if utxos.len() > 0 {
        lemma_found_has_commitment(utxos.skip(1), commitment_hash);
    }
}

/// A multisig output is made exactly where every script key that the wallet derived is a point.
pub proof fn law_output_is_made_of_points(
    buildings: Seq<UtxoBuilding>,
    rounds: Seq<KeyRound>,
    commitment: CompressedCommitment,
    r: Result<BuiltUtxo, CommandError>,
)
    requires
        is_derivation(buildings, rounds),
        buildings.last().is_building(commitment, r),
    ensures
        r is Ok <==> forall|i: int| 0 <= i < rounds.len() ==> valid_point((#[trigger] rounds[i]).reply@),
        r matches Ok(built) ==> buildings.last().is_built(commitment, built),
{
    law_one_script_key_for_each_party(buildings, rounds);
    let keys = buildings.last().ephemeral_pubkeys@;
    if all_points(keys) {
        assert forall|i: int| 0 <= i < rounds.len() implies valid_point((#[trigger] rounds[i]).reply@) by {
            assert(valid_point(keys[i]@));
        }
    }
    if forall|i: int| 0 <= i < rounds.len() ==> valid_point((#[trigger] rounds[i]).reply@) {
        assert forall|i: int| 0 <= i < keys.len() implies valid_point((#[trigger] keys[i])@) by {
            assert(valid_point(rounds[i].reply@));
        }
    }
}

/// The wallet's words are given on where it could not send or submit a multisig output, and nothing else fails there.
pub proof fn law_wallet_decides_on_sending(
    built: BuiltUtxo,
    reply: Result<u64, String>,
    sent: Result<SentUtxo, CommandError>,
    submitted: Result<(), String>,
    r: Result<u64, CommandError>,
)
    requires
        built.is_sent(reply, sent),
        sent matches Ok(stage) ==> stage.is_submitted(submitted, r),
    ensures
        sent is Ok <==> reply is Ok,
        sent matches Ok(stage) ==> stage.built == built,
        sent is Ok ==> (r is Ok <==> submitted is Ok),
        sent is Ok && submitted is Ok ==> r->Ok_0 == reply->Ok_0,
        sent matches Err(e) ==> (e matches CommandError::General(text) && text@.len() >= reply->Err_0@.len()
            && text@.skip(text@.len() - reply->Err_0@.len()) == reply->Err_0@),
        sent is Ok && submitted is Err ==> (r matches Err(CommandError::General(text)) && text@.len()
            >= submitted->Err_0@.len() && text@.skip(text@.len() - submitted->Err_0@.len()) == submitted->Err_0@),
{
    if let Err(words) = reply {
        let start = "Failed to send to self: "@;
        assert((start + words@).skip(start.len() as int) =~= words@);
    }
    if let Err(words) = submitted {
        let start = "Failed to submit transaction: "@;
        assert((start + words@).skip(start.len() as int) =~= words@);
    }
}

} // verus!
