//! The leader's part: collecting what the parties gave, and starting a transaction for each commitment.
use crate::encumber::is_general;
use crate::encumber::law_every_total_is_a_sum_of_shares;
use crate::encumber::EncumberRequest;
use crate::encumber::EncumberedTransaction;
use crate::encumber::FetchedOutput;
use crate::encumber::FinishedTransaction;
use crate::encumber::SignedInput;
use crate::encumber::UpdatedInput;
use crate::encumber::WalletReplies;
use crate::error::CommandError;
use crate::hex::hex_text;
use crate::key_map::KeyMap;
use crate::keys::point_add;
use crate::keys::same_bytes;
use crate::keys::valid_point;
use crate::keys::CompressedCommitment;
use crate::keys::CompressedPublicKey;
use crate::keys::RistrettoPublicKey;
use crate::list::copied;
use crate::party::is_part;
use crate::party::lemma_party_keeps_the_session;
use crate::party::PartyMember;
use crate::party::PartyRound;
use crate::script::is_key_error;
use crate::script::law_signatures_are_those_of_the_keys;
use crate::script::point_sum;
use crate::script::signing_keys;
use crate::send::other_parties;
use crate::text::joined;
use crate::types::CheckSigSchnorrSignature;
use crate::types::DbWalletOutput;
use crate::types::LeaderCommitmentSignature;
use crate::types::MultisigEncumberOutput;
use crate::types::MultisigLeaderPartyOutput;
use crate::types::MultisigOutput;
use crate::types::MultisigPartyOutput;
use crate::types::TariAddress;
use crate::types::TariKeyId;
use crate::utxo::first_with_commitment;
use crate::utxo::get_utxo_by_commitment_hash;
use crate::utxo::law_first_with_commitment;
use crate::weight::RangeProofType;
use vstd::prelude::*;

verus! {

/// The first party from a position on whose key is not the wallet's own, or the number of parties.
pub open spec fn next_party(parties: Seq<CompressedPublicKey>, own: CompressedPublicKey, from: int) -> int
    decreases parties.len() - from,
{
    if from < 0 || from >= parties.len() {
        parties.len() as int
    } else if parties[from] != own {
        from
    } else {
        next_party(parties, own, from + 1)
    }
}

/// The parties' records that the leader has so far.
pub struct Collection {
    /// The session.
    pub config: MultisigOutput,
    /// The leader's own address.
    pub own_address: TariAddress,
    /// The records, in the order of the parties.
    pub records: Vec<MultisigLeaderPartyOutput>,
}

/// The leader waits for the record of a party.
pub struct PartyLoad {
    /// What the leader has so far.
    pub collection: Collection,
    /// The position of the party.
    pub index: usize,
    /// The key of the party whose record is to be loaded.
    pub party: CompressedPublicKey,
}

impl PartyLoad {
    /// Whether the party is one of the session's and not the leader.
    pub open spec fn is_valid(self) -> bool {
        &&& self.index < self.collection.config.parties_public_keys@.len()
        &&& self.party == self.collection.config.parties_public_keys@[self.index as int]
        &&& self.party != self.collection.own_address.public_spend_key
    }
}

/// What the leader asks the wallet for while collecting.
pub enum CollectStep {
    /// The record of a party.
    LoadParty(PartyLoad),
    /// The unspent outputs: all parties were asked.
    FetchOutputs(Collection),
}

impl Collection {
    /// Whether a step is the one that comes when the parties before a position were asked.
    pub open spec fn is_next(self, from: int, step: CollectStep) -> bool {
        let i = next_party(self.config.parties_public_keys@, self.own_address.public_spend_key, from);
        match step {
            CollectStep::LoadParty(load) => {
                &&& load.collection == self
                &&& load.index == i
                &&& load.is_valid()
            },
            CollectStep::FetchOutputs(collection) => {
                &&& collection == self
                &&& i == self.config.parties_public_keys@.len()
            },
        }
    }

    fn next_step(self, from: usize) -> (step: CollectStep)
        requires
            from <= self.config.parties_public_keys@.len(),
        ensures
            self.is_next(from as int, step),
    {
        let mut index: usize = from;
        while index < self.config.parties_public_keys.len()
            invariant
                index <= self.config.parties_public_keys@.len(),
                next_party(self.config.parties_public_keys@, self.own_address.public_spend_key, from as int)
                    == next_party(self.config.parties_public_keys@, self.own_address.public_spend_key, index as int),
            decreases self.config.parties_public_keys@.len() - index,
        {
            let party = self.config.parties_public_keys[index];
            if !same_bytes(&party, &self.own_address.public_spend_key) {
                return CollectStep::LoadParty(PartyLoad { collection: self, index, party });
            }
            index += 1;
        }
        CollectStep::FetchOutputs(self)
    }
}

/// Whether a step is the one that collecting the parties' records of a session starts with.
pub open spec fn is_collection(config: MultisigOutput, own_address: TariAddress, step: CollectStep) -> bool {
    exists|collection: Collection|
        {
            &&& collection.config == config
            &&& collection.own_address == own_address
            &&& collection.records@ == Seq::<MultisigLeaderPartyOutput>::empty()
            &&& #[trigger] collection.is_next(0, step)
        }
}

/// Starts collecting the parties' records of a session.
pub fn collect_multisig_utxo_encumber(config: MultisigOutput, own_address: TariAddress) -> (step: CollectStep)
    ensures
        is_collection(config, own_address, step),
{
    let collection = Collection { config, own_address, records: Vec::new() };
    let ghost start = collection;
    let step = collection.next_step(0);
    assert(start.is_next(0, step));
    step
}

impl PartyLoad {
    /// Whether a collection is this one with the party's record, if there is one.
    pub open spec fn is_extended(self, record: Option<MultisigLeaderPartyOutput>, collection: Collection) -> bool {
        &&& collection.config == self.collection.config
        &&& collection.own_address == self.collection.own_address
        &&& collection.records@ == match record {
            Some(record) => self.collection.records@.push(record),
            None => self.collection.records@,
        }
    }

    /// Whether a result is the step that follows the party's record, or the error that there is none and the party's key is
    /// no point.
    pub open spec fn is_followed(
        self,
        record: Option<MultisigLeaderPartyOutput>,
        r: Result<CollectStep, CommandError>,
    ) -> bool {
        match r {
            Ok(step) => {
                &&& record is Some || valid_point(self.party@)
                &&& exists|collection: Collection|
                    self.is_extended(record, collection) && #[trigger] collection.is_next(self.index + 1, step)
            },
            Err(e) => record is None && !valid_point(self.party@) && is_key_error(e),
        }
    }

    /// Takes the record of the party. A party whose record cannot be loaded is left out, unless its key is no
    /// point.
    pub fn loaded(self, record: Option<MultisigLeaderPartyOutput>) -> (r: Result<CollectStep, CommandError>)
        requires
            self.is_valid(),
        ensures
            self.is_followed(record, r),
    {
        let ghost before = self;
        assert(self.index < self.collection.config.parties_public_keys.len());
        let from: usize = self.index + 1;
        let mut collection = self.collection;
        match record {
            Some(record) => {
                collection.records.push(record);
            },
            None => {
                match RistrettoPublicKey::from_compressed(&self.party) {
                    Ok(_) => {},
                    Err(e) => {
                        return Err(CommandError::ByteArrayError(e));
                    },
                }
            },
        }
        let ghost extended = collection;
        let step = collection.next_step(from);
        assert(before.is_extended(record, extended) && extended.is_next(before.index + 1, step));
        Ok(step)
    }
}

/// What the parties gave for all commitments, in the order of the records.
pub open spec fn contributions(records: Seq<MultisigLeaderPartyOutput>) -> Seq<LeaderCommitmentSignature>
    decreases records.len(),
{
    if records.len() == 0 {
        Seq::empty()
    } else {
        contributions(records.drop_last()) + records.last().commitment_signatures@
    }
}

/// The signatures by the keys that they are made with. Of two for one key the later counts.
pub open spec fn signature_map(given: Seq<LeaderCommitmentSignature>) -> Map<
    CompressedPublicKey,
    CheckSigSchnorrSignature,
>
    decreases given.len(),
{
    if given.len() == 0 {
        Map::empty()
    } else {
        signature_map(given.drop_last()).insert(given.last().ephemeral_pubkey, given.last().signature)
    }
}

/// The parties' shares of the keys and the signatures of a transaction.
pub struct CollectedShares {
    /// The nonces for the script signature.
    pub public_sender_nonces: Vec<CompressedPublicKey>,
    /// The nonces for the metadata signature.
    pub public_offset_nonces: Vec<CompressedPublicKey>,
    /// The sender offset keys.
    pub public_offset_public_keys: Vec<CompressedPublicKey>,
    /// The secrets that the parties share with the recipient.
    pub dh_shared_secret_public_keys: Vec<CompressedPublicKey>,
    /// The signatures over the commitment, by the key that they are made with.
    pub input_shares: KeyMap<CheckSigSchnorrSignature>,
}

impl CollectedShares {
    /// Whether the shares are those of given contributions, in their order.
    pub open spec fn are_of(self, given: Seq<LeaderCommitmentSignature>) -> bool {
        &&& self.public_sender_nonces@ == given.map_values(|g: LeaderCommitmentSignature| g.script_nonce_key)
        &&& self.public_offset_nonces@ == given.map_values(
            |g: LeaderCommitmentSignature| g.sender_offset_public_nonce_key,
        )
        &&& self.public_offset_public_keys@ == given.map_values(
            |g: LeaderCommitmentSignature| g.sender_offset_public_key,
        )
        &&& self.dh_shared_secret_public_keys@ == given.map_values(
            |g: LeaderCommitmentSignature| g.dh_shared_secret_public_key,
        )
        &&& self.input_shares@ == signature_map(given)
    }

    fn new() -> (shares: Self)
        ensures
            shares.are_of(Seq::empty()),
    {
        let shares = CollectedShares {
            public_sender_nonces: Vec::new(),
            public_offset_nonces: Vec::new(),
            public_offset_public_keys: Vec::new(),
            dh_shared_secret_public_keys: Vec::new(),
            input_shares: KeyMap::new(),
        };
        let ghost none = Seq::<LeaderCommitmentSignature>::empty();
        assert(none.map_values(|g: LeaderCommitmentSignature| g.script_nonce_key) =~= Seq::empty());
        assert(none.map_values(|g: LeaderCommitmentSignature| g.sender_offset_public_nonce_key) =~= Seq::empty());
        assert(none.map_values(|g: LeaderCommitmentSignature| g.sender_offset_public_key) =~= Seq::empty());
        assert(none.map_values(|g: LeaderCommitmentSignature| g.dh_shared_secret_public_key) =~= Seq::empty());
        shares
    }

    fn with(self, given: LeaderCommitmentSignature, Ghost(before): Ghost<Seq<LeaderCommitmentSignature>>) -> (shares:
        Self)
        requires
            self.are_of(before),
        ensures
            shares.are_of(before.push(given)),
    {
        let mut public_sender_nonces = self.public_sender_nonces;
        let mut public_offset_nonces = self.public_offset_nonces;
        let mut public_offset_public_keys = self.public_offset_public_keys;
        let mut dh_shared_secret_public_keys = self.dh_shared_secret_public_keys;
        public_sender_nonces.push(given.script_nonce_key);
        public_offset_nonces.push(given.sender_offset_public_nonce_key);
        public_offset_public_keys.push(given.sender_offset_public_key);
        dh_shared_secret_public_keys.push(given.dh_shared_secret_public_key);
        let input_shares = self.input_shares.insert(given.ephemeral_pubkey, given.signature);
        let ghost after = before.push(given);
        assert(after.drop_last() =~= before);
        let shares = CollectedShares {
            public_sender_nonces,
            public_offset_nonces,
            public_offset_public_keys,
            dh_shared_secret_public_keys,
            input_shares,
        };
        assert(shares.public_sender_nonces@ =~= after.map_values(|g: LeaderCommitmentSignature| g.script_nonce_key));
        assert(shares.public_offset_nonces@ =~= after.map_values(
            |g: LeaderCommitmentSignature| g.sender_offset_public_nonce_key,
        ));
        assert(shares.public_offset_public_keys@ =~= after.map_values(
            |g: LeaderCommitmentSignature| g.sender_offset_public_key,
        ));
        assert(shares.dh_shared_secret_public_keys@ =~= after.map_values(
            |g: LeaderCommitmentSignature| g.dh_shared_secret_public_key,
        ));
        shares
    }

    /// Gathers the shares of all records.
    pub fn gather(records: &Vec<MultisigLeaderPartyOutput>) -> (shares: Self)
        ensures
            shares.are_of(contributions(records@)),
    {
        let mut shares = CollectedShares::new();
        let mut i: usize = 0;
        assert(contributions(records@.take(0)) =~= Seq::empty());
        while i < records.len()
            invariant
                i <= records@.len(),
                shares.are_of(contributions(records@.take(i as int))),
            decreases records@.len() - i,
        {
            let given = &records[i].commitment_signatures;
            let ghost before = contributions(records@.take(i as int));
            let mut j: usize = 0;
            assert(before + given@.take(0) =~= before);
            while j < given.len()
                invariant
                    j <= given@.len(),
                    shares.are_of(before + given@.take(j as int)),
                decreases given@.len() - j,
            {
                shares = shares.with(given[j], Ghost(before + given@.take(j as int)));
                assert((before + given@.take(j as int)).push(given@[j as int]) =~= before + given@.take(j + 1));
                j += 1;
            }
            assert(given@.take(given@.len() as int) =~= given@);
            assert(records@.take(i + 1).drop_last() =~= records@.take(i as int));
            i += 1;
        }
        assert(records@.take(records@.len() as int) =~= records@);
        shares
    }
}

/// The transactions that the leader has started so far.
pub struct Encumbering {
    /// The session.
    pub config: MultisigOutput,
    /// The leader's own address.
    pub own_address: TariAddress,
    /// The parties' shares.
    pub shares: CollectedShares,
    /// The wallet's unspent outputs.
    pub utxos: Vec<DbWalletOutput>,
    /// The position of the commitment that comes next.
    pub next: usize,
    /// The transactions, in the order of the commitments.
    pub outputs: Vec<MultisigEncumberOutput>,
}

/// What the leader asks the wallet for while starting transactions.
pub enum EncumberStep {
    /// To start a transaction for the commitment that comes next.
    Encumber(Encumbering, EncumberRequest),
    /// Nothing more: these are the transactions.
    Done(Vec<MultisigEncumberOutput>),
}

impl Encumbering {
    /// Whether the commitment that comes next is one of the session's.
    pub open spec fn is_valid(self) -> bool {
        self.next < self.config.commitments@.len()
    }

    /// The output with the commitment that comes next.
    pub open spec fn next_utxo(self) -> Option<DbWalletOutput> {
        first_with_commitment(self.utxos@, self.config.commitments@[self.next as int]@)
    }

    /// Whether a request is the one for an output: it spends the output at its commitment and hash, with all
    /// shares, at a fee of one micro Minotari per gram, to the session's recipient.
    pub open spec fn is_request(self, utxo: DbWalletOutput, request: EncumberRequest) -> bool {
        &&& !request.prevent_fee_gt_amount
        &&& request.own_address@ == self.own_address@
        &&& request.fee_per_gram == 1
        &&& request.expected_commitment == utxo.commitment
        &&& request.script_input_shares@ == self.shares.input_shares@
        &&& request.script_signature_public_nonces@ == self.shares.public_sender_nonces@
        &&& request.sender_offset_public_key_shares@ == self.shares.public_offset_public_keys@
        &&& request.metadata_ephemeral_public_key_shares@ == self.shares.public_offset_nonces@
        &&& request.dh_shared_secret_shares@ == self.shares.dh_shared_secret_public_keys@
        &&& request.recipient_address@ == self.config.recipient_address@
        &&& request.tx_payment_id@ == utxo.payment_id@
        &&& utxo.mined_height == Some(request.original_maturity)
        &&& request.range_proof_type == RangeProofType::BulletProofPlus
        &&& request.minimum_value_promise == 0
        &&& request.output_hash == utxo.hash
    }

    /// Whether a result is what comes next: the transactions when there is no commitment left, the request for
    /// the next commitment's output, or the error that there is no such output or that it was not mined.
    pub open spec fn is_next(self, r: Result<EncumberStep, CommandError>) -> bool {
        match r {
            Ok(EncumberStep::Done(outputs)) => self.next >= self.config.commitments@.len() && outputs == self.outputs,
            Ok(EncumberStep::Encumber(state, request)) => {
                &&& self.is_valid()
                &&& state == self
                &&& self.next_utxo() matches Some(utxo) && self.is_request(utxo, request)
            },
            Err(e) => {
                &&& self.is_valid()
                &&& match self.next_utxo() {
                    None => is_general(
                        e,
                        "UTXO not found in output: "@ + self.config.commitments@[self.next as int]@,
                    ),
                    Some(utxo) => utxo.mined_height is None && is_general(e, "UTXO mined height is missing"@),
                }
            },
        }
    }

    fn next_step(self) -> (r: Result<EncumberStep, CommandError>)
        ensures
            self.is_next(r),
    {
        if self.next >= self.config.commitments.len() {
            return Ok(EncumberStep::Done(self.outputs));
        }
        let commitment = self.config.commitments[self.next].clone();
        let request = match get_utxo_by_commitment_hash(self.utxos.as_slice(), commitment) {
            Some(utxo) => match utxo.mined_height {
                Some(height) => EncumberRequest {
                    prevent_fee_gt_amount: false,
                    own_address: self.own_address.duplicate(),
                    fee_per_gram: 1,
                    expected_commitment: utxo.commitment,
                    script_input_shares: self.shares.input_shares.duplicate(),
                    script_signature_public_nonces: copied(&self.shares.public_sender_nonces),
                    sender_offset_public_key_shares: copied(&self.shares.public_offset_public_keys),
                    metadata_ephemeral_public_key_shares: copied(&self.shares.public_offset_nonces),
                    dh_shared_secret_shares: copied(&self.shares.dh_shared_secret_public_keys),
                    recipient_address: self.config.recipient_address.duplicate(),
                    tx_payment_id: copied(&utxo.payment_id),
                    original_maturity: height,
                    range_proof_type: RangeProofType::BulletProofPlus,
                    minimum_value_promise: 0,
                    output_hash: utxo.hash,
                },
                None => {
                    return Err(CommandError::General("UTXO mined height is missing".to_owned()));
                },
            },
            None => {
                return Err(
                    CommandError::General(
                        joined("UTXO not found in output: ", self.config.commitments[self.next].as_str()),
                    ),
                );
            },
        };
        Ok(EncumberStep::Encumber(self, request))
    }
}

impl Collection {
    /// Whether transactions are started with the shares of all records and with nothing done yet.
    pub open spec fn is_start(self, utxos: Vec<DbWalletOutput>, state: Encumbering) -> bool {
        &&& state.config == self.config
        &&& state.own_address == self.own_address
        &&& state.shares.are_of(contributions(self.records@))
        &&& state.utxos == utxos
        &&& state.next == 0
        &&& state.outputs@ == Seq::<MultisigEncumberOutput>::empty()
    }

    /// Takes the wallet's unspent outputs.
    pub fn fetched(self, utxos: Vec<DbWalletOutput>) -> (r: Result<EncumberStep, CommandError>)
        ensures
            exists|state: Encumbering|
                self.is_start(utxos, state) && state.in_order() && #[trigger] state.is_next(r),
    {
        let ghost before = self;
        let shares = CollectedShares::gather(&self.records);
        let state = Encumbering {
            config: self.config,
            own_address: self.own_address,
            shares,
            utxos,
            next: 0,
            outputs: Vec::new(),
        };
        let ghost start = state;
        let r = state.next_step();
        assert(before.is_start(utxos, start) && start.in_order() && start.is_next(r));
        r
    }
}

/// The parts of a started transaction that the parties need.
pub struct TransactionParts {
    /// The bytes of the input data of the spent output.
    pub input_stack: Vec<u8>,
    /// The bytes of the script of the spent output.
    pub input_script: Vec<u8>,
    /// The ephemeral commitment of the script signature.
    pub script_signature_ephemeral_commitment: CompressedCommitment,
    /// The commitment of the new output.
    pub output_commitment: CompressedCommitment,
    /// The sender offset key of the new output.
    pub sender_offset_pubkey: CompressedPublicKey,
    /// The ephemeral commitment of the metadata signature.
    pub metadata_signature_ephemeral_commitment: CompressedCommitment,
    /// The value, the mask and the payment id of the new output, encrypted.
    pub encrypted_data: Vec<u8>,
    /// The bytes of the features of the new output.
    pub output_features: Vec<u8>,
}

impl TransactionParts {
    /// The record of a started transaction.
    pub open spec fn record(self, transaction: EncumberedTransaction, output_index: usize) -> MultisigEncumberOutput {
        MultisigEncumberOutput {
            output_index,
            tx_id: transaction.tx_id,
            input_stack: self.input_stack,
            input_script: self.input_script,
            total_script_key: transaction.total_script_key,
            script_signature_ephemeral_commitment: self.script_signature_ephemeral_commitment,
            script_signature_ephemeral_pubkey: transaction.total_script_nonce,
            output_commitment: self.output_commitment,
            sender_offset_pubkey: self.sender_offset_pubkey,
            metadata_signature_ephemeral_commitment: self.metadata_signature_ephemeral_commitment,
            metadata_signature_ephemeral_pubkey: transaction.total_metadata_nonce,
            encrypted_data: self.encrypted_data,
            output_features: self.output_features,
            shared_secret: transaction.shared_secret,
        }
    }
}

impl Encumbering {
    /// Whether a state is this one after the commitment that came next: with the record of its transaction, if
    /// that could be started.
    pub open spec fn is_advanced(
        self,
        result: Option<(EncumberedTransaction, TransactionParts)>,
        state: Encumbering,
    ) -> bool {
        &&& state.config == self.config
        &&& state.own_address == self.own_address
        &&& state.shares == self.shares
        &&& state.utxos == self.utxos
        &&& state.next == self.next + 1
        &&& state.outputs@ == match result {
            Some((transaction, parts)) => self.outputs@.push(parts.record(transaction, self.next)),
            None => self.outputs@,
        }
    }

    /// Takes the started transaction. A commitment whose transaction cannot be started is left out.
    pub fn encumbered(self, result: Option<(EncumberedTransaction, TransactionParts)>) -> (r: Result<
        EncumberStep,
        CommandError,
    >)
        requires
            self.is_valid(),
        ensures
            exists|state: Encumbering| self.is_advanced(result, state) && #[trigger] state.is_next(r),
    {
        let ghost before = self;
        let mut state = self;
        match result {
            Some((transaction, parts)) => {
                state.outputs.push(
                    MultisigEncumberOutput {
                        output_index: state.next,
                        tx_id: transaction.tx_id,
                        input_stack: parts.input_stack,
                        input_script: parts.input_script,
                        total_script_key: transaction.total_script_key,
                        script_signature_ephemeral_commitment: parts.script_signature_ephemeral_commitment,
                        script_signature_ephemeral_pubkey: transaction.total_script_nonce,
                        output_commitment: parts.output_commitment,
                        sender_offset_pubkey: parts.sender_offset_pubkey,
                        metadata_signature_ephemeral_commitment: parts.metadata_signature_ephemeral_commitment,
                        metadata_signature_ephemeral_pubkey: transaction.total_metadata_nonce,
                        encrypted_data: parts.encrypted_data,
                        output_features: parts.output_features,
                        shared_secret: transaction.shared_secret,
                    },
                );
            },
            None => {},
        }
        assert(state.next < state.config.commitments.len());
        state.next += 1;
        let ghost advanced = state;
        let r = state.next_step();
        assert(before.is_advanced(result, advanced) && advanced.is_next(r));
        r
    }
}

/// The parties are asked in their order, each other party once, and the leader never.
pub proof fn law_every_other_party_is_asked(
    parties: Seq<CompressedPublicKey>,
    own: CompressedPublicKey,
    from: int,
)
    requires
        0 <= from <= parties.len(),
    ensures
        from <= next_party(parties, own, from) <= parties.len(),
        next_party(parties, own, from) < parties.len() ==> parties[next_party(parties, own, from)] != own,
        forall|i: int| from <= i < next_party(parties, own, from) ==> parties[i] == own,
    decreases parties.len() - from,
{
    if from < parties.len() && parties[from] == own {
        law_every_other_party_is_asked(parties, own, from + 1);
    }
}

proof fn lemma_keys_of_contributions(given: Seq<LeaderCommitmentSignature>, i: int)
    requires
        0 <= i < given.len(),
        forall|j: int| i < j < given.len() ==> (#[trigger] given[j]).ephemeral_pubkey != given[i].ephemeral_pubkey,
    ensures
        signature_map(given).dom().contains(given[i].ephemeral_pubkey),
        signature_map(given)[given[i].ephemeral_pubkey] == given[i].signature,
    decreases given.len(),
{
    if i < given.len() - 1 {
        let rest = given.drop_last();
        assert forall|j: int| i < j < rest.len() implies (#[trigger] rest[j]).ephemeral_pubkey
            != rest[i].ephemeral_pubkey by {
            assert(rest[j] == given[j]);
        }
        lemma_keys_of_contributions(rest, i);
        assert(given[given.len() - 1] == given.last());
    }
}

/// The lists of shares stand one for one for what the parties gave, and the last signature that was given for a key
/// is the one that is used for it.
pub proof fn law_shares_are_what_the_parties_gave(
    records: Seq<MultisigLeaderPartyOutput>,
    shares: CollectedShares,
    i: int,
)
    requires
        shares.are_of(contributions(records)),
        0 <= i < contributions(records).len(),
        forall|j: int|
            i < j < contributions(records).len() ==> (#[trigger] contributions(records)[j]).ephemeral_pubkey
                != contributions(records)[i].ephemeral_pubkey,
    ensures
        shares.public_sender_nonces@.len() == contributions(records).len(),
        shares.public_offset_nonces@.len() == contributions(records).len(),
        shares.public_offset_public_keys@.len() == contributions(records).len(),
        shares.dh_shared_secret_public_keys@.len() == contributions(records).len(),
        shares.public_sender_nonces@[i] == contributions(records)[i].script_nonce_key,
        shares.public_offset_nonces@[i] == contributions(records)[i].sender_offset_public_nonce_key,
        shares.public_offset_public_keys@[i] == contributions(records)[i].sender_offset_public_key,
        shares.dh_shared_secret_public_keys@[i] == contributions(records)[i].dh_shared_secret_public_key,
        shares.input_shares@.dom().contains(contributions(records)[i].ephemeral_pubkey),
        shares.input_shares@[contributions(records)[i].ephemeral_pubkey] == contributions(records)[i].signature,
{
    lemma_keys_of_contributions(contributions(records), i);
}

impl Encumbering {
    /// Whether the transactions are in the order of the commitments, and of commitments that were tried.
    pub open spec fn in_order(self) -> bool {
        &&& self.outputs@.len() <= self.next <= self.config.commitments@.len()
        &&& forall|k: int| 0 <= k < self.outputs@.len() ==> (#[trigger] self.outputs@[k]).output_index < self.next
        &&& forall|j: int, k: int|
            0 <= j < k < self.outputs@.len() ==> (#[trigger] self.outputs@[j]).output_index < (
            #[trigger] self.outputs@[k]).output_index
    }
}

/// Each commitment of a session has at most one transaction, and the transactions are in the order of the
/// commitments.
pub proof fn law_transactions_stay_in_order(
    before: Encumbering,
    result: Option<(EncumberedTransaction, TransactionParts)>,
    after: Encumbering,
)
    requires
        before.in_order(),
        before.is_valid(),
        before.is_advanced(result, after),
    ensures
        after.in_order(),
{
}

/// The signature that a party gave is among those that the script gets, where the party's script key is one of the
/// script's but not the leader's, and no later one was given for it.
pub proof fn law_party_signature_reaches_the_script(
    records: Seq<MultisigLeaderPartyOutput>,
    state: Encumbering,
    utxo: DbWalletOutput,
    signed: SignedInput,
    i: int,
    k: int,
)
    requires
        state.shares.are_of(contributions(records)),
        state.is_request(utxo, signed.opened.request),
        signed.follows(),
        0 <= i < contributions(records).len(),
        forall|j: int|
            i < j < contributions(records).len() ==> (#[trigger] contributions(records)[j]).ephemeral_pubkey
                != contributions(records)[i].ephemeral_pubkey,
        0 <= k < signed.opened.keys@.len(),
        signed.opened.keys@[k] == contributions(records)[i].ephemeral_pubkey,
        signed.own_key != contributions(records)[i].ephemeral_pubkey,
    ensures
        signed.signatures@.contains(contributions(records)[i].signature),
{
    law_shares_are_what_the_parties_gave(records, state.shares, i);
    let keys = signed.opened.keys@;
    let shares = signed.shares();
    law_signatures_are_those_of_the_keys(keys, shares);
    assert(shares.dom().contains(keys[k]));
    let signing = signing_keys(keys, shares);
    let j = choose|j: int| 0 <= j < signing.len() && signing[j] == keys[k];
    assert(signed.signatures@[j] == shares[keys[k]]);
}

/// Where the parties are asked from after a number of them: behind the last one that was asked.
pub open spec fn asked_up_to(loads: Seq<PartyLoad>, k: int) -> int {
    if k <= 0 {
        0
    } else {
        loads[k - 1].index + 1
    }
}

/// The records that were there, in the order in which they were asked for.
pub open spec fn loaded_records(replies: Seq<Option<MultisigLeaderPartyOutput>>) -> Seq<MultisigLeaderPartyOutput>
    decreases replies.len(),
{
    if replies.len() == 0 {
        Seq::empty()
    } else {
        match replies.last() {
            Some(record) => loaded_records(replies.drop_last()).push(record),
            None => loaded_records(replies.drop_last()),
        }
    }
}

/// Whether the parties were asked one after another, with the wallet's replies.
pub open spec fn is_collecting(
    collections: Seq<Collection>,
    loads: Seq<PartyLoad>,
    replies: Seq<Option<MultisigLeaderPartyOutput>>,
) -> bool {
    &&& collections.len() == loads.len() + 1
    &&& replies.len() == loads.len()
    &&& collections[0].records@.len() == 0
    &&& forall|k: int|
        0 <= k < loads.len() ==> {
            &&& collections[k].is_next(asked_up_to(loads, k), CollectStep::LoadParty(#[trigger] loads[k]))
            &&& loads[k].is_extended(replies[k], collections[k + 1])
        }
}

proof fn lemma_only_others_are_kept(
    parties: Seq<CompressedPublicKey>,
    own: CompressedPublicKey,
    from: int,
    to: int,
)
    requires
        0 <= from <= to <= parties.len(),
        forall|i: int| from <= i < to ==> parties[i] == own,
    ensures
        other_parties(parties.take(to), own) == other_parties(parties.take(from), own),
    decreases to - from,
{
    if from < to {
        lemma_only_others_are_kept(parties, own, from, to - 1);
        reveal(Seq::filter);
        assert(parties.take(to).drop_last() =~= parties.take(to - 1));
        assert(parties.take(to).last() == parties[to - 1]);
    }
}

proof fn lemma_asked_parties(
    collections: Seq<Collection>,
    loads: Seq<PartyLoad>,
    replies: Seq<Option<MultisigLeaderPartyOutput>>,
    k: int,
)
    requires
        is_collecting(collections, loads, replies),
        0 <= k <= loads.len(),
    ensures
        ({
            let parties = collections[0].config.parties_public_keys@;
            let own = collections[0].own_address.public_spend_key;
            &&& collections[k].config == collections[0].config
            &&& collections[k].own_address == collections[0].own_address
            &&& 0 <= asked_up_to(loads, k) <= parties.len()
            &&& loads.take(k).map_values(|load: PartyLoad| load.party) == other_parties(
                parties.take(asked_up_to(loads, k)),
                own,
            )
            &&& collections[k].records@ == loaded_records(replies.take(k))
        }),
    decreases k,
{
    let parties = collections[0].config.parties_public_keys@;
    let own = collections[0].own_address.public_spend_key;
    if k == 0 {
        reveal(Seq::filter);
        assert(loads.take(0).map_values(|load: PartyLoad| load.party) =~= Seq::empty());
        assert(other_parties(parties.take(0), own) =~= Seq::empty());
        assert(collections[0].records@ =~= Seq::empty());
        assert(loaded_records(replies.take(0)) =~= Seq::empty());
    } else {
        lemma_asked_parties(collections, loads, replies, k - 1);
        let load = loads[k - 1];
        let from = asked_up_to(loads, k - 1);
        let at = load.index as int;
        assert(collections[k - 1].is_next(from, CollectStep::LoadParty(load)));
        law_every_other_party_is_asked(parties, own, from);
        lemma_only_others_are_kept(parties, own, from, at);
        reveal(Seq::filter);
        assert(parties.take(at + 1).drop_last() =~= parties.take(at));
        assert(parties.take(at + 1).last() == load.party);
        assert(loads.take(k).map_values(|load: PartyLoad| load.party) =~= loads.take(k - 1).map_values(
            |load: PartyLoad| load.party,
        ).push(load.party));
        assert(replies.take(k).drop_last() =~= replies.take(k - 1));
    }
}

/// When the leader has no party left to ask, all parties but the leader were asked, each in its place, and the leader
/// has the records that were there, in their order.
pub proof fn law_all_records_are_collected(
    collections: Seq<Collection>,
    loads: Seq<PartyLoad>,
    replies: Seq<Option<MultisigLeaderPartyOutput>>,
)
    requires
        is_collecting(collections, loads, replies),
        collections.last().is_next(
            asked_up_to(loads, loads.len() as int),
            CollectStep::FetchOutputs(collections.last()),
        ),
    ensures
        loads.map_values(|load: PartyLoad| load.party) == other_parties(
            collections[0].config.parties_public_keys@,
            collections[0].own_address.public_spend_key,
        ),
        collections.last().records@ == loaded_records(replies),
{
    let n = loads.len() as int;
    let parties = collections[0].config.parties_public_keys@;
    let own = collections[0].own_address.public_spend_key;
    lemma_asked_parties(collections, loads, replies, n);
    law_every_other_party_is_asked(parties, own, asked_up_to(loads, n));
    lemma_only_others_are_kept(parties, own, asked_up_to(loads, n), parties.len() as int);
    assert(parties.take(parties.len() as int) =~= parties);
    assert(loads.take(n) =~= loads);
    assert(replies.take(n) =~= replies);
}

/// The records of the transactions that were started, each under the position of its commitment.
pub open spec fn started_records(results: Seq<Option<(EncumberedTransaction, TransactionParts)>>) -> Seq<
    MultisigEncumberOutput,
>
    decreases results.len(),
{
    if results.len() == 0 {
        Seq::empty()
    } else {
        match results.last() {
            Some((transaction, parts)) => started_records(results.drop_last()).push(
                parts.record(transaction, (results.len() - 1) as usize),
            ),
            None => started_records(results.drop_last()),
        }
    }
}

/// The leader has exactly the records of the transactions that were started, each under the position of its
/// commitment.
pub proof fn law_all_started_transactions_are_recorded(
    states: Seq<Encumbering>,
    results: Seq<Option<(EncumberedTransaction, TransactionParts)>>,
)
    requires
        states.len() == results.len() + 1,
        states[0].next == 0,
        states[0].outputs@.len() == 0,
        forall|k: int|
            0 <= k < results.len() ==> states[k].is_advanced(#[trigger] results[k], states[k + 1]),
    ensures
        states.last().next == results.len(),
        states.last().outputs@ == started_records(results),
    decreases results.len(),
{
    if results.len() == 0 {
        assert(states[0].outputs@ =~= Seq::empty());
    } else {
        let n = results.len() - 1;
        let fewer = states.drop_last();
        assert forall|k: int| 0 <= k < n implies fewer[k].is_advanced(
            #[trigger] results.drop_last()[k],
            fewer[k + 1],
        ) by {
            assert(states[k].is_advanced(results[k], states[k + 1]));
        }
        law_all_started_transactions_are_recorded(fewer, results.drop_last());
        assert(fewer.last() == states[n]);
        assert(states[n].is_advanced(results[n], states[n + 1]));
    }
}

/// The totals that the parties sign with are the sums of what all parties gave and the leader's own share.
pub proof fn law_totals_are_sums_of_what_the_parties_gave(
    records: Seq<MultisigLeaderPartyOutput>,
    state: Encumbering,
    utxo: DbWalletOutput,
    input: UpdatedInput,
)
    requires
        state.shares.are_of(contributions(records)),
        state.is_request(utxo, input.spend().signed.opened.request),
        input.traced(),
    ensures
        ({
            let given = contributions(records);
            let built = input.nonces.built;
            let sender = built.nonces.sender;
            &&& input.total_nonce@ == point_add(
                point_sum(given.map_values(|g: LeaderCommitmentSignature| g.script_nonce_key)),
                input.own_nonce@,
            )
            &&& built.total_nonce@ == point_add(
                point_sum(given.map_values(|g: LeaderCommitmentSignature| g.sender_offset_public_nonce_key)),
                built.own_nonce@,
            )
            &&& sender.total@ == point_add(
                point_sum(given.map_values(|g: LeaderCommitmentSignature| g.sender_offset_public_key)),
                sender.own_key@,
            )
            &&& sender.shared.secret@ == point_add(
                point_sum(given.map_values(|g: LeaderCommitmentSignature| g.dh_shared_secret_public_key)),
                sender.shared.own_secret@,
            )
        }),
{
    law_every_total_is_a_sum_of_shares(input);
}

/// Whether transactions were started one after another, from what was collected and the unspent outputs on.
pub open spec fn is_starting(
    collection: Collection,
    utxos: Vec<DbWalletOutput>,
    states: Seq<Encumbering>,
    results: Seq<Option<(EncumberedTransaction, TransactionParts)>>,
) -> bool {
    &&& states.len() == results.len() + 1
    &&& collection.is_start(utxos, states[0])
    &&& forall|k: int| 0 <= k < results.len() ==> states[k].is_advanced(#[trigger] results[k], states[k + 1])
}

proof fn lemma_states_keep_the_session(
    collection: Collection,
    utxos: Vec<DbWalletOutput>,
    states: Seq<Encumbering>,
    results: Seq<Option<(EncumberedTransaction, TransactionParts)>>,
    i: int,
)
    requires
        is_starting(collection, utxos, states, results),
        0 <= i < states.len(),
    ensures
        states[i].config == collection.config,
        states[i].own_address == collection.own_address,
        states[i].shares == states[0].shares,
        states[i].utxos == utxos,
        states[i].next == i,
    decreases i,
{
    if i > 0 {
        lemma_states_keep_the_session(collection, utxos, states, results, i - 1);
        assert(states[i - 1].is_advanced(results[i - 1], states[i]));
    }
}

/// Every request to start a transaction is of its session. It goes from the leader's address to the session's recipient, and
/// spends the first of the wallet's outputs that has the session's commitment at its position, with that output's
/// hash, payment id and height. It holds all that the parties gave, in their order. The fee is one micro Minotari per gram,
/// whatever the amount is, and the new output has a range proof and promises no value.
pub proof fn law_request_is_of_the_session(
    collection: Collection,
    utxos: Vec<DbWalletOutput>,
    states: Seq<Encumbering>,
    results: Seq<Option<(EncumberedTransaction, TransactionParts)>>,
    state: Encumbering,
    request: EncumberRequest,
)
    requires
        is_starting(collection, utxos, states, results),
        states.last().is_next(Ok(EncumberStep::Encumber(state, request))),
    ensures
        state == states.last(),
        results.len() < collection.config.commitments@.len(),
        request.recipient_address.public_view_key == collection.config.recipient_address.public_view_key,
        request.recipient_address.public_spend_key == collection.config.recipient_address.public_spend_key,
        request.recipient_address.encoded@ == collection.config.recipient_address.encoded@,
        request.own_address.public_view_key == collection.own_address.public_view_key,
        request.own_address.public_spend_key == collection.own_address.public_spend_key,
        request.own_address.encoded@ == collection.own_address.encoded@,
        hex_text(request.expected_commitment@) == collection.config.commitments@[results.len() as int]@,
        exists|i: int|
            {
                &&& 0 <= i < utxos@.len()
                &&& (#[trigger] utxos@[i]).commitment == request.expected_commitment
                &&& utxos@[i].hash == request.output_hash
                &&& utxos@[i].payment_id@ == request.tx_payment_id@
                &&& utxos@[i].mined_height == Some(request.original_maturity)
                &&& forall|j: int|
                    0 <= j < i ==> hex_text((#[trigger] utxos@[j]).commitment@)
                        != collection.config.commitments@[results.len() as int]@
            },
        ({
            let given = contributions(collection.records@);
            &&& request.script_signature_public_nonces@.len() == given.len()
            &&& request.sender_offset_public_key_shares@.len() == given.len()
            &&& request.metadata_ephemeral_public_key_shares@.len() == given.len()
            &&& request.dh_shared_secret_shares@.len() == given.len()
            &&& forall|i: int|
                0 <= i < given.len() ==> {
                    &&& request.script_signature_public_nonces@[i] == (#[trigger] given[i]).script_nonce_key
                    &&& request.sender_offset_public_key_shares@[i] == given[i].sender_offset_public_key
                    &&& request.metadata_ephemeral_public_key_shares@[i] == given[i].sender_offset_public_nonce_key
                    &&& request.dh_shared_secret_shares@[i] == given[i].dh_shared_secret_public_key
                }
            &&& request.script_input_shares@ == signature_map(given)
        }),
        request.fee_per_gram == 1,
        !request.prevent_fee_gt_amount,
        request.range_proof_type == RangeProofType::BulletProofPlus,
        request.minimum_value_promise == 0,
{
    let n = results.len() as int;
    lemma_states_keep_the_session(collection, utxos, states, results, n);
    let text = collection.config.commitments@[n]@;
    law_first_with_commitment(utxos@, text);
    let utxo = first_with_commitment(utxos@, text)->Some_0;
    let i = choose|i: int|
        {
            &&& 0 <= i < utxos@.len()
            &&& #[trigger] utxos@[i] == utxo
            &&& hex_text(utxos@[i].commitment@) == text
            &&& forall|j: int| 0 <= j < i ==> hex_text((#[trigger] utxos@[j]).commitment@) != text
        };
    assert(utxos@[i].commitment == request.expected_commitment);
}

/// The leader and every party make their secrets with one and the same key: the view key of the session's recipient.
pub proof fn law_all_secrets_are_with_the_recipient(
    collection: Collection,
    utxos: Vec<DbWalletOutput>,
    states: Seq<Encumbering>,
    results: Seq<Option<(EncumberedTransaction, TransactionParts)>>,
    state: Encumbering,
    request: EncumberRequest,
    finished: FinishedTransaction,
    tx_id: u64,
    fetched: Seq<FetchedOutput>,
    replies: WalletReplies,
    leader_keys: (TariKeyId, CompressedPublicKey),
    session_id: String,
    spend_key: CompressedPublicKey,
    parties: Seq<PartyMember>,
    rounds: Seq<PartyRound>,
    output: MultisigPartyOutput,
    i: int,
    party_keys: (TariKeyId, CompressedPublicKey),
)
    requires
        is_starting(collection, utxos, states, results),
        states.last().is_next(Ok(EncumberStep::Encumber(state, request))),
        finished.is_run(request, tx_id, fetched, replies),
        finished.updated.shared().asked.are_secret_keys(leader_keys.0, leader_keys.1),
        is_part(collection.config, session_id, spend_key, parties, rounds, output),
        0 <= i < rounds.len(),
        rounds[i].signing.are_secret_keys(party_keys.0, party_keys.1),
    ensures
        collection.config.recipient_address.public_view_key == Some(leader_keys.1),
        finished.updated.shared().asked.view_key == leader_keys.1,
        leader_keys.0 == replies.sender_offset_key,
        party_keys.1 == leader_keys.1,
        party_keys.0 == rounds[i].keys.sender_offset_key.key_id,
{
    law_request_is_of_the_session(collection, utxos, states, results, state, request);
    lemma_party_keeps_the_session(collection.config, session_id, spend_key, parties, rounds, output, i);
    assert(rounds[i].leads(parties[i], parties[i + 1]));
}

/// What the parties gave comes in the order of their records: what records behind one another hold is what the first
/// ones hold, and then what the others hold. One record holds its own.
pub proof fn law_contributions_keep_their_order(
    a: Seq<MultisigLeaderPartyOutput>,
    b: Seq<MultisigLeaderPartyOutput>,
    one: MultisigLeaderPartyOutput,
)
    ensures
        contributions(a + b) == contributions(a) + contributions(b),
        contributions(seq![one]) == one.commitment_signatures@,
        contributions(Seq::empty()).len() == 0,
    decreases b.len(),
{
    if b.len() == 0 {
        assert(a + b =~= a);
        assert(contributions(b) =~= Seq::empty());
        assert(contributions(a) + contributions(b) =~= contributions(a));
    } else {
        law_contributions_keep_their_order(a, b.drop_last(), one);
        assert((a + b).drop_last() =~= a + b.drop_last());
        assert((a + b).last() == b.last());
        assert(contributions(a + b) =~= contributions(a) + contributions(b));
    }
    assert(seq![one].drop_last() =~= Seq::empty());
    assert(contributions(Seq::<MultisigLeaderPartyOutput>::empty()) =~= Seq::empty());
    assert(contributions(seq![one]) =~= one.commitment_signatures@);
}

/// There is a signature for exactly the keys that one was given for, and each is one that was given for its key.
pub proof fn law_signatures_are_by_the_keys_that_made_them(
    given: Seq<LeaderCommitmentSignature>,
    key: CompressedPublicKey,
)
    ensures
        signature_map(given).dom().contains(key) <==> exists|i: int|
            0 <= i < given.len() && (#[trigger] given[i]).ephemeral_pubkey == key,
        signature_map(given).dom().contains(key) ==> exists|i: int|
            {
                &&& 0 <= i < given.len()
                &&& (#[trigger] given[i]).ephemeral_pubkey == key
                &&& given[i].signature == signature_map(given)[key]
                &&& forall|j: int| i < j < given.len() ==> (#[trigger] given[j]).ephemeral_pubkey != key
            },
    decreases given.len(),
{
    if given.len() > 0 {
        let n = given.len() - 1;
        let rest = given.drop_last();
        law_signatures_are_by_the_keys_that_made_them(rest, key);
        if given[n].ephemeral_pubkey == key {
            assert(given[n].signature == signature_map(given)[key]);
        } else {
            if signature_map(rest).dom().contains(key) {
                let i = choose|i: int|
                    {
                        &&& 0 <= i < rest.len()
                        &&& (#[trigger] rest[i]).ephemeral_pubkey == key
                        &&& rest[i].signature == signature_map(rest)[key]
                        &&& forall|j: int| i < j < rest.len() ==> (#[trigger] rest[j]).ephemeral_pubkey != key
                    };
                assert(given[i].ephemeral_pubkey == key);
                assert forall|j: int| i < j < given.len() implies (#[trigger] given[j]).ephemeral_pubkey != key by {
                    if j < n {
                        assert(rest[j].ephemeral_pubkey != key);
                    }
                }
            }
            if exists|i: int| 0 <= i < given.len() && (#[trigger] given[i]).ephemeral_pubkey == key {
                let i = choose|i: int| 0 <= i < given.len() && (#[trigger] given[i]).ephemeral_pubkey == key;
                assert(rest[i].ephemeral_pubkey == key);
            }
        }
    }
}

/// The records that were there come in the order in which they were asked for: those of replies behind one another are those of
/// the first ones, and then those of the others. One reply counts where it is a record.
pub proof fn law_loaded_records_keep_their_order(
    a: Seq<Option<MultisigLeaderPartyOutput>>,
    b: Seq<Option<MultisigLeaderPartyOutput>>,
    one: MultisigLeaderPartyOutput,
)
    ensures
        loaded_records(a + b) == loaded_records(a) + loaded_records(b),
        loaded_records(seq![Some(one)]) == seq![one],
        loaded_records(seq![None::<MultisigLeaderPartyOutput>]).len() == 0,
        loaded_records(Seq::empty()).len() == 0,
    decreases b.len(),
{
    let none = Seq::<Option<MultisigLeaderPartyOutput>>::empty();
    assert(loaded_records(none) =~= Seq::empty());
    if b.len() == 0 {
        assert(a + b =~= a);
        assert(loaded_records(b) =~= Seq::empty());
        assert(loaded_records(a) + loaded_records(b) =~= loaded_records(a));
    } else {
        law_loaded_records_keep_their_order(a, b.drop_last(), one);
        assert((a + b).drop_last() =~= a + b.drop_last());
        assert((a + b).last() == b.last());
        assert(loaded_records(a + b) =~= loaded_records(a) + loaded_records(b));
    }
    assert(seq![Some(one)].drop_last() =~= none);
    assert(seq![None::<MultisigLeaderPartyOutput>].drop_last() =~= none);
    assert(loaded_records(seq![Some(one)]) =~= seq![one]);
}

/// A party that gave no record is left out where its key is a point, and ends the collection where it is not. A party that
/// gave one is never left out: its record comes last, and those before it stay.
pub proof fn law_record_of_a_party_is_kept(
    load: PartyLoad,
    record: Option<MultisigLeaderPartyOutput>,
    r: Result<CollectStep, CommandError>,
)
    requires
        load.is_followed(record, r),
    ensures
        r is Err <==> record is None && !valid_point(load.party@),
        r matches Ok(step) ==> {
            let collection = match step {
                CollectStep::LoadParty(next) => next.collection,
                CollectStep::FetchOutputs(collection) => collection,
            };
            let before = load.collection.records@;
            &&& collection.records@.len() == before.len() + if record is Some {
                1int
            } else {
                0int
            }
            &&& forall|i: int| 0 <= i < before.len() ==> #[trigger] collection.records@[i] == before[i]
            &&& record matches Some(given) ==> collection.records@.last() == given
            &&& collection.config == load.collection.config
            &&& collection.own_address == load.collection.own_address
        },
{
}

proof fn lemma_indices_are_of_tried_commitments(
    collection: Collection,
    utxos: Vec<DbWalletOutput>,
    states: Seq<Encumbering>,
    results: Seq<Option<(EncumberedTransaction, TransactionParts)>>,
    i: int,
    j: int,
)
    requires
        is_starting(collection, utxos, states, results),
        0 <= i < states.len(),
        0 <= j < states[i].outputs@.len(),
    ensures
        states[i].outputs@[j].output_index < i,
        results[states[i].outputs@[j].output_index as int] is Some,
    decreases i,
{
    if i > 0 {
        lemma_states_keep_the_session(collection, utxos, states, results, i - 1);
        assert(states[i - 1].is_advanced(results[i - 1], states[i]));
        if j < states[i - 1].outputs@.len() {
            lemma_indices_are_of_tried_commitments(collection, utxos, states, results, i - 1, j);
        }
    }
}

/// A transaction that was started has one record, under the position of its commitment, with the name, the sums and the
/// secret of the transaction and with its parts. A commitment without a transaction has no record.
pub proof fn law_each_transaction_has_its_record(
    collection: Collection,
    utxos: Vec<DbWalletOutput>,
    states: Seq<Encumbering>,
    results: Seq<Option<(EncumberedTransaction, TransactionParts)>>,
    i: int,
    k: int,
)
    requires
        is_starting(collection, utxos, states, results),
        0 <= k < i < states.len(),
    ensures
        results[k] matches Some((transaction, parts)) ==> exists|j: int|
            {
                &&& 0 <= j < states[i].outputs@.len()
                &&& (#[trigger] states[i].outputs@[j]).output_index == k
                &&& states[i].outputs@[j].tx_id == transaction.tx_id
                &&& states[i].outputs@[j].input_stack@ == parts.input_stack@
                &&& states[i].outputs@[j].input_script@ == parts.input_script@
                &&& states[i].outputs@[j].total_script_key == transaction.total_script_key
                &&& states[i].outputs@[j].script_signature_ephemeral_commitment
                    == parts.script_signature_ephemeral_commitment
                &&& states[i].outputs@[j].script_signature_ephemeral_pubkey == transaction.total_script_nonce
                &&& states[i].outputs@[j].output_commitment == parts.output_commitment
                &&& states[i].outputs@[j].sender_offset_pubkey == parts.sender_offset_pubkey
                &&& states[i].outputs@[j].metadata_signature_ephemeral_commitment
                    == parts.metadata_signature_ephemeral_commitment
                &&& states[i].outputs@[j].metadata_signature_ephemeral_pubkey == transaction.total_metadata_nonce
                &&& states[i].outputs@[j].encrypted_data@ == parts.encrypted_data@
                &&& states[i].outputs@[j].output_features@ == parts.output_features@
                &&& states[i].outputs@[j].shared_secret == transaction.shared_secret
            },
        results[k] is None ==> forall|j: int|
            0 <= j < states[i].outputs@.len() ==> (#[trigger] states[i].outputs@[j]).output_index != k,
    decreases i,
{
    let before = states[i - 1];
    lemma_states_keep_the_session(collection, utxos, states, results, i - 1);
    assert(before.is_advanced(results[i - 1], states[i]));
    assert forall|j: int| 0 <= j < before.outputs@.len() implies #[trigger] states[i].outputs@[j]
        == before.outputs@[j] by {}
    if k == i - 1 {
        if results[k] is Some {
            assert(states[i].outputs@[before.outputs@.len() as int].output_index == k);
        } else {
            assert forall|j: int| 0 <= j < states[i].outputs@.len() implies (
            #[trigger] states[i].outputs@[j]).output_index != k by {
                lemma_indices_are_of_tried_commitments(collection, utxos, states, results, i, j);
            }
        }
    } else {
        law_each_transaction_has_its_record(collection, utxos, states, results, i - 1, k);
        if results[k] is Some {
            let transaction = results[k]->Some_0.0;
            let parts = results[k]->Some_0.1;
            let j = choose|j: int|
                {
                    &&& 0 <= j < before.outputs@.len()
                    &&& (#[trigger] before.outputs@[j]).output_index == k
                    &&& before.outputs@[j].tx_id == transaction.tx_id
                    &&& before.outputs@[j].input_stack@ == parts.input_stack@
                    &&& before.outputs@[j].input_script@ == parts.input_script@
                    &&& before.outputs@[j].total_script_key == transaction.total_script_key
                    &&& before.outputs@[j].script_signature_ephemeral_commitment
                        == parts.script_signature_ephemeral_commitment
                    &&& before.outputs@[j].script_signature_ephemeral_pubkey == transaction.total_script_nonce
                    &&& before.outputs@[j].output_commitment == parts.output_commitment
                    &&& before.outputs@[j].sender_offset_pubkey == parts.sender_offset_pubkey
                    &&& before.outputs@[j].metadata_signature_ephemeral_commitment
                        == parts.metadata_signature_ephemeral_commitment
                    &&& before.outputs@[j].metadata_signature_ephemeral_pubkey == transaction.total_metadata_nonce
                    &&& before.outputs@[j].encrypted_data@ == parts.encrypted_data@
                    &&& before.outputs@[j].output_features@ == parts.output_features@
                    &&& before.outputs@[j].shared_secret == transaction.shared_secret
                };
            assert(states[i].outputs@[j] == before.outputs@[j]);
        } else {
            assert forall|j: int| 0 <= j < states[i].outputs@.len() implies (
            #[trigger] states[i].outputs@[j]).output_index != k by {
                if j < before.outputs@.len() {
                    assert(before.outputs@[j].output_index != k);
                }
            }
        }
    }
}

/// The leader ends with all transactions that were started, and only when every commitment of the session was tried.
pub proof fn law_all_commitments_are_tried(
    collection: Collection,
    utxos: Vec<DbWalletOutput>,
    states: Seq<Encumbering>,
    results: Seq<Option<(EncumberedTransaction, TransactionParts)>>,
    outputs: Vec<MultisigEncumberOutput>,
)
    requires
        is_starting(collection, utxos, states, results),
        forall|k: int| 0 <= k < results.len() ==> (#[trigger] states[k]).is_valid(),
        states.last().is_next(Ok(EncumberStep::Done(outputs))),
    ensures
        results.len() == collection.config.commitments@.len(),
        outputs@ == states.last().outputs@,
        outputs@ == started_records(results),
        forall|j: int|
            0 <= j < outputs@.len() ==> (#[trigger] outputs@[j]).output_index < results.len()
                && results[outputs@[j].output_index as int] is Some,
{
    let n = results.len() as int;
    lemma_states_keep_the_session(collection, utxos, states, results, n);
    law_all_started_transactions_are_recorded(states, results);
    if n > 0 {
        lemma_states_keep_the_session(collection, utxos, states, results, n - 1);
        assert(states[n - 1].is_valid());
    }
    assert forall|j: int| 0 <= j < outputs@.len() implies (#[trigger] outputs@[j]).output_index < results.len()
        && results[outputs@[j].output_index as int] is Some by {
        lemma_indices_are_of_tried_commitments(collection, utxos, states, results, n, j);
    }
}

/// A transaction is asked for exactly where a commitment is left, the wallet has an output with it, and the first such output
/// was mined.
pub proof fn law_request_needs_a_mined_output(
    collection: Collection,
    utxos: Vec<DbWalletOutput>,
    states: Seq<Encumbering>,
    results: Seq<Option<(EncumberedTransaction, TransactionParts)>>,
    r: Result<EncumberStep, CommandError>,
    i: int,
)
    requires
        is_starting(collection, utxos, states, results),
        states.last().is_next(r),
    ensures
        (r matches Ok(EncumberStep::Done(_))) <==> results.len() >= collection.config.commitments@.len(),
        results.len() < collection.config.commitments@.len() && (forall|j: int|
            0 <= j < utxos@.len() ==> hex_text((#[trigger] utxos@[j]).commitment@)
                != collection.config.commitments@[results.len() as int]@) ==> (r matches Err(CommandError::General(words))
            && words@.len() >= collection.config.commitments@[results.len() as int]@.len() && words@.skip(
            words@.len() - collection.config.commitments@[results.len() as int]@.len(),
        ) == collection.config.commitments@[results.len() as int]@),
        results.len() < collection.config.commitments@.len() && 0 <= i < utxos@.len() && hex_text(utxos@[i].commitment@)
            == collection.config.commitments@[results.len() as int]@ && (forall|j: int|
            0 <= j < i ==> hex_text((#[trigger] utxos@[j]).commitment@)
                != collection.config.commitments@[results.len() as int]@) ==> (r is Ok <==> utxos@[i].mined_height is Some),
{
    let n = results.len() as int;
    lemma_states_keep_the_session(collection, utxos, states, results, n);
    let text = collection.config.commitments@[n]@;
    law_first_with_commitment(utxos@, text);
    let start = "UTXO not found in output: "@;
    assert((start + text).skip(start.len() as int) =~= text);
    if n < collection.config.commitments@.len() && 0 <= i < utxos@.len() && hex_text(utxos@[i].commitment@) == text && (
    forall|j: int| 0 <= j < i ==> hex_text((#[trigger] utxos@[j]).commitment@) != text) {
        let utxo = first_with_commitment(utxos@, text)->Some_0;
        let k = choose|k: int|
            {
                &&& 0 <= k < utxos@.len()
                &&& #[trigger] utxos@[k] == utxo
                &&& hex_text(utxos@[k].commitment@) == text
                &&& forall|j: int| 0 <= j < k ==> hex_text((#[trigger] utxos@[j]).commitment@) != text
            };
        assert(k == i) by {
            if k < i {
                assert(hex_text(utxos@[k].commitment@) != text);
            }
            if i < k {
                assert(hex_text(utxos@[i].commitment@) != text);
            }
        }
    }
}

/// The leader starts collecting with nothing, asks the first party that is not itself, and asks no party where all are.
pub proof fn law_collection_starts_with_the_first_other_party(
    config: MultisigOutput,
    own_address: TariAddress,
    step: CollectStep,
)
    requires
        is_collection(config, own_address, step),
    ensures
        match step {
            CollectStep::LoadParty(load) => {
                &&& load.collection.config == config
                &&& load.collection.own_address == own_address
                &&& load.collection.records@.len() == 0
                &&& load.index < config.parties_public_keys@.len()
                &&& load.party == config.parties_public_keys@[load.index as int]
                &&& load.party != own_address.public_spend_key
                &&& forall|i: int|
                    0 <= i < load.index ==> #[trigger] config.parties_public_keys@[i] == own_address.public_spend_key
            },
            CollectStep::FetchOutputs(collection) => {
                &&& collection.config == config
                &&& collection.own_address == own_address
                &&& collection.records@.len() == 0
                &&& forall|i: int|
                    0 <= i < config.parties_public_keys@.len() ==> #[trigger] config.parties_public_keys@[i]
                        == own_address.public_spend_key
            },
        },
{
    law_every_other_party_is_asked(config.parties_public_keys@, own_address.public_spend_key, 0);
}

} // verus!
