//! A party's part: the keys and the signatures that it makes for a session.
use crate::encumber::is_invalid_argument;
use crate::error::CommandError;
use crate::hex::decode;
use crate::hex::hex_decode;
use crate::hex::hex_text;
use crate::hex::law_hex_text_is_read_back;
use crate::hex::to_array;
use crate::keys::same_bytes;
use crate::keys::CompressedCommitment;
use crate::keys::CompressedPublicKey;
use crate::keys::PrivateKey;
use crate::script::all_points;
use crate::script::multisig_components;
use crate::session::is_derivation;
use crate::session::is_session;
use crate::session::law_one_script_key_for_each_party;
use crate::session::law_parties_recover_what_was_made;
use crate::session::law_session_has_the_mask_of_its_commitment;
use crate::session::BuiltUtxo;
use crate::session::CreateMultisigUtxoTransferLeaderArgs;
use crate::session::KeyRound;
use crate::session::UtxoBuilding;
use crate::text::joined;
use crate::types::CheckSigSchnorrSignature;
use crate::types::DbWalletOutput;
use crate::types::LeaderCommitmentSignature;
use crate::types::MemberCommitmentSignature;
use crate::types::MultisigLeaderPartyOutput;
use crate::types::MultisigMemberPartyOutput;
use crate::types::MultisigOutput;
use crate::types::MultisigPartyOutput;
use crate::types::TariKeyAndId;
use crate::types::TariKeyId;
use vstd::prelude::*;

verus! {

/// What a party has made for a session so far.
pub struct PartyMember {
    /// The name of the session.
    pub session_id: String,
    /// The spend key of the party.
    pub member_public_key: CompressedPublicKey,
    /// The recipient's view key.
    pub view_key: CompressedPublicKey,
    /// The mask of the commitment of the output to spend.
    pub commitment_mask: PrivateKey,
    /// The commitments of the session, in hexadecimal.
    pub commitments: Vec<String>,
    /// The records for the leader, one for each of the leading commitments.
    pub leader: Vec<LeaderCommitmentSignature>,
    /// The records that the party keeps, one for each of the leading commitments.
    pub member: Vec<MemberCommitmentSignature>,
}

impl PartyMember {
    /// Whether both lists of records are of the same commitments and hold the same signatures.
    pub open spec fn is_aligned(self) -> bool {
        &&& self.leader@.len() == self.member@.len() <= self.commitments@.len()
        &&& forall|k: int|
            0 <= k < self.leader@.len() ==> (#[trigger] self.leader@[k]).signature == self.member@[k].signature
    }

    /// The position of the commitment that comes next.
    pub open spec fn index(self) -> int {
        self.leader@.len() as int
    }

    /// Whether there is no commitment left.
    pub open spec fn is_complete(self) -> bool {
        self.index() >= self.commitments@.len()
    }

    /// The commitment that comes next, in hexadecimal.
    pub open spec fn commitment(self) -> Seq<char> {
        self.commitments@[self.index()]@
    }
}

/// Whether a result is where the party with a given spend key starts its part of a session, or the error why it has none.
pub open spec fn is_start(
    config: MultisigOutput,
    session_id: String,
    spend_key: CompressedPublicKey,
    r: Result<PartyMember, CommandError>,
) -> bool {
    match r {
        Ok(party) => {
            &&& config.parties_public_keys@.contains(spend_key)
            &&& config.recipient_address.public_view_key == Some(party.view_key)
            &&& party.session_id == session_id
            &&& party.member_public_key == spend_key
            &&& party.commitment_mask == config.commitment_mask
            &&& party.commitments == config.commitments
            &&& party.leader@ == Seq::<LeaderCommitmentSignature>::empty()
            &&& party.member@ == Seq::<MemberCommitmentSignature>::empty()
            &&& party.is_aligned()
        },
        Err(e) => if config.parties_public_keys@.contains(spend_key) {
            &&& config.recipient_address.public_view_key is None
            &&& is_invalid_argument(e, "Missing public view key"@)
        } else {
            e is PartyMemberNotFound
        },
    }
}

/// Starts a party's part of a session.
pub fn create_multisig_party_member_output(
    config: MultisigOutput,
    session_id: String,
    spend_key: &CompressedPublicKey,
) -> (r: Result<PartyMember, CommandError>)
    ensures
        is_start(config, session_id, *spend_key, r),
{
    let mut i: usize = 0;
    while i < config.parties_public_keys.len()
        invariant
            i <= config.parties_public_keys@.len(),
            forall|j: int| 0 <= j < i ==> config.parties_public_keys@[j] != *spend_key,
        decreases config.parties_public_keys@.len() - i,
    {
        let party = config.parties_public_keys[i];
        if same_bytes(&party, spend_key) {
            assert(config.parties_public_keys@[i as int] == *spend_key);
            return match config.recipient_address.public_view_key {
                Some(view_key) => Ok(
                    PartyMember {
                        session_id,
                        member_public_key: party,
                        view_key,
                        commitment_mask: config.commitment_mask,
                        commitments: config.commitments,
                        leader: Vec::new(),
                        member: Vec::new(),
                    },
                ),
                None => Err(CommandError::InvalidArgument("Missing public view key".to_owned())),
            };
        }
        i += 1;
    }
    Err(CommandError::PartyMemberNotFound)
}

/// The keys that a party makes at random for one commitment.
pub struct RandomKeys {
    /// The nonce of the script signature.
    pub script_nonce_key: TariKeyAndId,
    /// The sender offset key.
    pub sender_offset_key: TariKeyAndId,
    /// The nonce of the metadata signature.
    pub sender_offset_nonce_key: TariKeyAndId,
}

/// What a party asks the wallet for.
pub enum PartyStep {
    /// Random keys for the commitment that comes next, to import the mask, and the spend key.
    MakeKeys(PartyMember),
    /// Nothing: this is the party's part.
    Done(MultisigPartyOutput),
}

impl PartyMember {
    /// Whether a step is what comes next: the keys for the next commitment, or the party's part when there is none
    /// left.
    pub open spec fn is_next(self, step: PartyStep) -> bool {
        match step {
            PartyStep::MakeKeys(party) => !self.is_complete() && party == self,
            PartyStep::Done(output) => {
                &&& self.is_complete()
                &&& output.leader.session_id == self.session_id
                &&& output.leader.member_public_key == self.member_public_key
                &&& output.leader.commitment_signatures == self.leader
                &&& output.member.session_id == self.session_id
                &&& output.member.member_public_key == self.member_public_key
                &&& output.member.commitment_signatures == self.member
            },
        }
    }

    /// Whether a result is the next stage with the keys, or the error that the spend key is another.
    pub open spec fn is_keyed(
        self,
        keys: RandomKeys,
        spend_key: CompressedPublicKey,
        r: Result<ScriptKeyDerivation, CommandError>,
    ) -> bool {
        match r {
            Ok(derivation) => {
                &&& spend_key == self.member_public_key
                &&& derivation.party == self
                &&& derivation.keys == keys
            },
            Err(e) => {
                &&& spend_key != self.member_public_key
                &&& is_invalid_argument(e, "Spend key does not match member public key"@)
            },
        }
    }

    /// Asks for the keys for the commitment that comes next.
    pub fn next(self) -> (step: PartyStep)
        ensures
            self.is_next(step),
    {
        if self.leader.len() < self.commitments.len() {
            return PartyStep::MakeKeys(self);
        }
        let session_id = self.session_id.clone();
        PartyStep::Done(
            MultisigPartyOutput {
                leader: MultisigLeaderPartyOutput {
                    session_id,
                    member_public_key: self.member_public_key,
                    commitment_signatures: self.leader,
                },
                member: MultisigMemberPartyOutput {
                    session_id: self.session_id,
                    member_public_key: self.member_public_key,
                    commitment_signatures: self.member,
                },
            },
        )
    }

    /// Takes the keys, if the spend key is still that of the party.
    pub fn keys_made(self, keys: RandomKeys, spend_key: &CompressedPublicKey) -> (r: Result<
        ScriptKeyDerivation,
        CommandError,
    >)
        ensures
            self.is_keyed(keys, *spend_key, r),
    {
        if same_bytes(spend_key, &self.member_public_key) {
            Ok(ScriptKeyDerivation { party: self, keys })
        } else {
            Err(CommandError::InvalidArgument("Spend key does not match member public key".to_owned()))
        }
    }
}

/// A party waits for its script key: the wallet is asked to derive it from the mask and the spend key, and to
/// import its private key.
pub struct ScriptKeyDerivation {
    /// What the party has made so far.
    pub party: PartyMember,
    /// The random keys for the commitment.
    pub keys: RandomKeys,
}

/// A party waits for the signature over a commitment and for the secret that it shares with the recipient.
pub struct CommitmentSigning {
    /// What the party has made so far.
    pub party: PartyMember,
    /// The random keys for the commitment.
    pub keys: RandomKeys,
    /// The script key.
    pub ephemeral_pubkey: CompressedPublicKey,
    /// The name of the script key's private key, which signs.
    pub key_id: TariKeyId,
    /// The message to sign.
    pub message: [u8; 32],
}

impl ScriptKeyDerivation {
    /// Whether the script key is derived from a mask and a key.
    pub open spec fn are_keys(self, mask: PrivateKey, key: CompressedPublicKey) -> bool {
        &&& mask == self.party.commitment_mask
        &&& key == self.party.member_public_key
    }

    /// The mask and the spend key that the script key is derived from.
    pub fn keys(&self) -> (keys: (&PrivateKey, &CompressedPublicKey))
        ensures
            self.are_keys(*keys.0, *keys.1),
    {
        (&self.party.commitment_mask, &self.party.member_public_key)
    }

    /// Whether a result is the next stage with the script key and the commitment to sign, nothing where the commitment
    /// has not 32 bytes, or the error that it cannot be read.
    pub open spec fn is_derived(
        self,
        ephemeral_pubkey: CompressedPublicKey,
        key_id: TariKeyId,
        r: Result<Option<CommitmentSigning>, CommandError>,
    ) -> bool {
        match r {
            Ok(Some(signing)) => {
                &&& signing.party == self.party
                &&& signing.keys == self.keys
                &&& signing.ephemeral_pubkey == ephemeral_pubkey
                &&& signing.key_id == key_id
                &&& hex_decode(self.party.commitment()) == Ok::<Seq<u8>, Seq<char>>(signing.message@)
            },
            Ok(None) => hex_decode(self.party.commitment()) matches Ok(bytes) && bytes.len() != 32,
            Err(e) => {
                hex_decode(self.party.commitment()) matches Err(words) && is_invalid_argument(
                    e,
                    "Invalid commitment hex: "@ + words,
                )
            },
        }
    }

    /// Takes the script key, and reads the commitment to sign. Gives nothing where that has not 32 bytes.
    pub fn derived(self, ephemeral_pubkey: CompressedPublicKey, key_id: TariKeyId) -> (r: Result<
        Option<CommitmentSigning>,
        CommandError,
    >)
        requires
            !self.party.is_complete(),
        ensures
            self.is_derived(ephemeral_pubkey, key_id, r),
            forall|bytes: Seq<u8>|
                bytes.len() == 32 && #[trigger] hex_text(bytes) == self.party.commitment() ==> (r matches Ok(
                    Some(signing),
                ) && signing.message@ == bytes),
    {
        proof {
            assert forall|bytes: Seq<u8>| #[trigger] hex_text(bytes) == self.party.commitment() implies hex_decode(
                self.party.commitment(),
            ) == Ok::<Seq<u8>, Seq<char>>(bytes) by {
                law_hex_text_is_read_back(bytes);
            }
        }
        let commitment = match decode(self.party.commitments[self.party.leader.len()].as_str()) {
            Ok(bytes) => bytes,
            Err(words) => {
                return Err(CommandError::InvalidArgument(joined("Invalid commitment hex: ", words.as_str())));
            },
        };
        if commitment.len() != 32 {
            return Ok(None);
        }
        let message = to_array(commitment.as_slice());
        Ok(
            Some(
                CommitmentSigning { party: self.party, keys: self.keys, ephemeral_pubkey, key_id, message },
            ),
        )
    }
}

impl CommitmentSigning {
    /// Whether the secret with the recipient is made of a named key and a view key.
    pub open spec fn are_secret_keys(self, key_id: TariKeyId, view_key: CompressedPublicKey) -> bool {
        &&& key_id == self.keys.sender_offset_key.key_id
        &&& view_key == self.party.view_key
    }

    /// The key and the view key that the secret with the recipient is made of: the party's own sender offset key, and
    /// the recipient's view key.
    pub fn secret_keys(&self) -> (keys: (&TariKeyId, &CompressedPublicKey))
        ensures
            self.are_secret_keys(*keys.0, *keys.1),
    {
        (&self.keys.sender_offset_key.key_id, &self.party.view_key)
    }

    /// The record for the leader.
    pub open spec fn leader_record(
        self,
        signature: CheckSigSchnorrSignature,
        secret: CompressedPublicKey,
    ) -> LeaderCommitmentSignature {
        LeaderCommitmentSignature {
            signature,
            ephemeral_pubkey: self.ephemeral_pubkey,
            dh_shared_secret_public_key: secret,
            script_nonce_key: self.keys.script_nonce_key.pub_key,
            sender_offset_public_key: self.keys.sender_offset_key.pub_key,
            sender_offset_public_nonce_key: self.keys.sender_offset_nonce_key.pub_key,
        }
    }

    /// The record that the party keeps.
    pub open spec fn member_record(self, signature: CheckSigSchnorrSignature) -> MemberCommitmentSignature {
        MemberCommitmentSignature {
            signature,
            script_nonce_key_id: self.keys.script_nonce_key.key_id,
            ephemeral_pubkey_id: self.key_id,
            sender_offset_key: self.keys.sender_offset_key.key_id,
            sender_offset_nonce_key: self.keys.sender_offset_nonce_key.key_id,
        }
    }

    /// Whether a party has both records of the commitment more.
    pub open spec fn is_signed(
        self,
        signature: CheckSigSchnorrSignature,
        secret: CompressedPublicKey,
        party: PartyMember,
    ) -> bool {
        &&& party.session_id == self.party.session_id
        &&& party.member_public_key == self.party.member_public_key
        &&& party.view_key == self.party.view_key
        &&& party.commitment_mask == self.party.commitment_mask
        &&& party.commitments == self.party.commitments
        &&& party.leader@ == self.party.leader@.push(self.leader_record(signature, secret))
        &&& party.member@ == self.party.member@.push(self.member_record(signature))
    }

    /// Takes the signature over the commitment and the secret that the sender offset key shares with the
    /// recipient's view key.
    pub fn signed(self, signature: CheckSigSchnorrSignature, secret: CompressedPublicKey) -> (party: PartyMember)
        ensures
            self.is_signed(signature, secret, party),
            self.party.is_aligned() && !self.party.is_complete() ==> party.is_aligned(),
    {
        let mut party = self.party;
        party.leader.push(
            LeaderCommitmentSignature {
                signature,
                ephemeral_pubkey: self.ephemeral_pubkey,
                dh_shared_secret_public_key: secret,
                script_nonce_key: self.keys.script_nonce_key.pub_key,
                sender_offset_public_key: self.keys.sender_offset_key.pub_key,
                sender_offset_public_nonce_key: self.keys.sender_offset_nonce_key.pub_key,
            },
        );
        party.member.push(
            MemberCommitmentSignature {
                signature,
                script_nonce_key_id: self.keys.script_nonce_key.key_id,
                ephemeral_pubkey_id: self.key_id,
                sender_offset_key: self.keys.sender_offset_key.key_id,
                sender_offset_nonce_key: self.keys.sender_offset_nonce_key.key_id,
            },
        );
        party
    }
}

/// The steps in which a party made its records for one commitment, with the wallet's replies.
pub struct PartyRound {
    /// The random keys.
    pub keys: RandomKeys,
    /// The spend key.
    pub spend_key: CompressedPublicKey,
    /// The stage with the random keys.
    pub derivation: ScriptKeyDerivation,
    /// The script key.
    pub script_key: CompressedPublicKey,
    /// The name of the script key's private key.
    pub script_key_id: TariKeyId,
    /// The stage with the script key.
    pub signing: CommitmentSigning,
    /// The signature over the commitment.
    pub signature: CheckSigSchnorrSignature,
    /// The secret that the party shares with the recipient.
    pub secret: CompressedPublicKey,
}

impl PartyRound {
    /// Whether the steps lead from one state to another.
    pub open spec fn leads(self, before: PartyMember, after: PartyMember) -> bool {
        &&& before.is_next(PartyStep::MakeKeys(before))
        &&& before.is_keyed(self.keys, self.spend_key, Ok(self.derivation))
        &&& self.derivation.is_derived(self.script_key, self.script_key_id, Ok(Some(self.signing)))
        &&& self.signing.is_signed(self.signature, self.secret, after)
    }
}

impl PartyRound {
    /// Whether the wallet replied as it is asked to: the script key is the one that it derives from the mask and the
    /// spend key, the private key that it names belongs to the script key, and its signature over the message verifies
    /// under the public key of the key that it signed with.
    pub open spec fn is_right(
        self,
        derived_key: spec_fn(Seq<u8>, CompressedPublicKey) -> CompressedPublicKey,
        public_key: spec_fn(TariKeyId) -> CompressedPublicKey,
        verifies: spec_fn(CompressedPublicKey, Seq<u8>, CheckSigSchnorrSignature) -> bool,
    ) -> bool {
        &&& forall|mask: PrivateKey, key: CompressedPublicKey| #[trigger]
            self.derivation.are_keys(mask, key) ==> self.script_key == derived_key(mask@, key)
        &&& public_key(self.script_key_id) == self.script_key
        &&& verifies(public_key(self.signing.key_id), self.signing.message@, self.signature)
    }

    /// Whether the random keys are pairs of a private key and its public key, and the secret is the one that the wallet
    /// makes of the keys that it is asked to make it of.
    pub open spec fn is_paired(
        self,
        public_key: spec_fn(TariKeyId) -> CompressedPublicKey,
        shared_secret: spec_fn(TariKeyId, CompressedPublicKey) -> CompressedPublicKey,
    ) -> bool {
        &&& self.keys.script_nonce_key.pub_key == public_key(self.keys.script_nonce_key.key_id)
        &&& self.keys.sender_offset_key.pub_key == public_key(self.keys.sender_offset_key.key_id)
        &&& self.keys.sender_offset_nonce_key.pub_key == public_key(self.keys.sender_offset_nonce_key.key_id)
        &&& forall|key_id: TariKeyId, view_key: CompressedPublicKey| #[trigger]
            self.signing.are_secret_keys(key_id, view_key) ==> self.secret == shared_secret(key_id, view_key)
    }
}

proof fn lemma_records_of_rounds(parties: Seq<PartyMember>, rounds: Seq<PartyRound>)
    requires
        parties.len() == rounds.len() + 1,
        parties[0].leader@.len() == 0,
        parties[0].member@.len() == 0,
        forall|i: int| 0 <= i < rounds.len() ==> (#[trigger] rounds[i]).leads(parties[i], parties[i + 1]),
    ensures
        parties.last().commitments == parties[0].commitments,
        parties.last().member_public_key == parties[0].member_public_key,
        parties.last().session_id == parties[0].session_id,
        parties.last().view_key == parties[0].view_key,
        parties.last().commitment_mask == parties[0].commitment_mask,
        parties.last().leader@.len() == rounds.len() <= parties[0].commitments@.len(),
        parties.last().member@.len() == rounds.len(),
        forall|i: int|
            0 <= i < rounds.len() ==> #[trigger] parties.last().leader@[i] == rounds[i].signing.leader_record(
                rounds[i].signature,
                rounds[i].secret,
            ),
        forall|i: int|
            0 <= i < rounds.len() ==> #[trigger] parties.last().member@[i] == rounds[i].signing.member_record(
                rounds[i].signature,
            ),
        forall|i: int|
            0 <= i < rounds.len() ==> hex_decode((#[trigger] parties[0].commitments@[i])@) == Ok::<Seq<u8>, Seq<char>>(
                rounds[i].signing.message@,
            ),
    decreases rounds.len(),
{
    if rounds.len() > 0 {
        let n = rounds.len() - 1;
        let fewer = parties.drop_last();
        assert forall|i: int| 0 <= i < n implies (#[trigger] rounds.drop_last()[i]).leads(fewer[i], fewer[i + 1]) by {
            assert(rounds[i].leads(parties[i], parties[i + 1]));
        }
        lemma_records_of_rounds(fewer, rounds.drop_last());
        let before = parties[n];
        let after = parties.last();
        assert(fewer.last() == before);
        assert(rounds[n].leads(before, parties[n + 1]));
        assert forall|i: int| 0 <= i < rounds.len() implies #[trigger] after.leader@[i]
            == rounds[i].signing.leader_record(rounds[i].signature, rounds[i].secret) by {
            if i < n {
                assert(before.leader@[i] == after.leader@[i]);
                assert(rounds.drop_last()[i] == rounds[i]);
            }
        }
        assert forall|i: int| 0 <= i < rounds.len() implies #[trigger] after.member@[i]
            == rounds[i].signing.member_record(rounds[i].signature) by {
            if i < n {
                assert(before.member@[i] == after.member@[i]);
                assert(rounds.drop_last()[i] == rounds[i]);
            }
        }
        assert forall|i: int| 0 <= i < rounds.len() implies hex_decode((#[trigger] parties[0].commitments@[i])@)
            == Ok::<Seq<u8>, Seq<char>>(rounds[i].signing.message@) by {
            if i < n {
                assert(fewer[0] == parties[0]);
                assert(rounds.drop_last()[i] == rounds[i]);
            }
        }
    }
}

/// A party that is done has one record for each commitment of the session, both for the leader and for itself: with the
/// signature over that commitment, and with the public and the private side of the same keys.
pub proof fn law_one_record_for_each_commitment(
    parties: Seq<PartyMember>,
    rounds: Seq<PartyRound>,
    output: MultisigPartyOutput,
)
    requires
        parties.len() == rounds.len() + 1,
        parties[0].leader@.len() == 0,
        parties[0].member@.len() == 0,
        forall|i: int| 0 <= i < rounds.len() ==> (#[trigger] rounds[i]).leads(parties[i], parties[i + 1]),
        parties.last().is_next(PartyStep::Done(output)),
    ensures
        output.leader.member_public_key == parties[0].member_public_key,
        output.member.member_public_key == parties[0].member_public_key,
        output.leader.commitment_signatures@.len() == parties[0].commitments@.len(),
        output.member.commitment_signatures@.len() == parties[0].commitments@.len(),
        rounds.len() == parties[0].commitments@.len(),
        forall|i: int|
            0 <= i < rounds.len() ==> #[trigger] output.leader.commitment_signatures@[i]
                == rounds[i].signing.leader_record(rounds[i].signature, rounds[i].secret),
        forall|i: int|
            0 <= i < rounds.len() ==> #[trigger] output.member.commitment_signatures@[i]
                == rounds[i].signing.member_record(rounds[i].signature),
        forall|i: int|
            0 <= i < rounds.len() ==> hex_decode((#[trigger] parties[0].commitments@[i])@) == Ok::<Seq<u8>, Seq<char>>(
                rounds[i].signing.message@,
            ),
{
    lemma_records_of_rounds(parties, rounds);
}

/// A party signs with its own key in the script. Let a multisig output be made with the script keys that the wallet derives
/// from its mask and the parties' spend keys, and a session be opened on it. Then the party with the spend key at a
/// position gives one record, with the script key at the same position in the script and with a signature over the
/// commitment that verifies under it, and keeps the name of the private key that belongs to it. This holds whatever
/// the derivation, the key manager and the signature scheme are, if the wallet replies as they say.
pub proof fn law_party_signs_with_its_key_in_the_script(
    derived_key: spec_fn(Seq<u8>, CompressedPublicKey) -> CompressedPublicKey,
    public_key: spec_fn(TariKeyId) -> CompressedPublicKey,
    verifies: spec_fn(CompressedPublicKey, Seq<u8>, CheckSigSchnorrSignature) -> bool,
    buildings: Seq<UtxoBuilding>,
    key_rounds: Seq<KeyRound>,
    message: CompressedCommitment,
    built: BuiltUtxo,
    mask: Seq<u8>,
    payment_id: Seq<u8>,
    utxo: DbWalletOutput,
    utxos: Seq<DbWalletOutput>,
    args: CreateMultisigUtxoTransferLeaderArgs,
    config: MultisigOutput,
    session_id: String,
    j: int,
    parties: Seq<PartyMember>,
    rounds: Seq<PartyRound>,
    output: MultisigPartyOutput,
)
    requires
        is_derivation(buildings, key_rounds),
        forall|i: int|
            0 <= i < key_rounds.len() ==> (#[trigger] key_rounds[i]).reply == derived_key(mask, key_rounds[i].asked),
        all_points(buildings.last().ephemeral_pubkeys@),
        buildings.last().is_built(message, built),
        built.is_unspent(mask, payment_id, utxo),
        utxos.contains(utxo),
        forall|i: int| 0 <= i < utxos.len() && (#[trigger] utxos[i]).commitment@ == utxo.commitment@ ==> utxos[i] == utxo,
        args.utxo_commitment_hash@ == hex_text(utxo.commitment@),
        is_session(session_id@, utxos, args, Ok(config)),
        0 <= j < buildings[0].public_keys@.len(),
        parties.len() == rounds.len() + 1,
        is_start(config, session_id, buildings[0].public_keys@[j], Ok(parties[0])),
        forall|i: int| 0 <= i < rounds.len() ==> (#[trigger] rounds[i]).leads(parties[i], parties[i + 1]),
        forall|i: int| 0 <= i < rounds.len() ==> (#[trigger] rounds[i]).is_right(derived_key, public_key, verifies),
        parties.last().is_next(PartyStep::Done(output)),
    ensures
        output.leader.commitment_signatures@.len() == 1,
        output.member.commitment_signatures@.len() == 1,
        multisig_components(utxo.wallet_output.script.script@) matches Some((keys, threshold)) && {
            let given = output.leader.commitment_signatures@[0];
            let kept = output.member.commitment_signatures@[0];
            &&& given.ephemeral_pubkey == keys[j]
            &&& given.ephemeral_pubkey == derived_key(config.commitment_mask@, buildings[0].public_keys@[j])
            &&& public_key(kept.ephemeral_pubkey_id) == keys[j]
            &&& kept.signature == given.signature
            &&& verifies(keys[j], utxo.commitment@, given.signature)
        },
{
    law_one_script_key_for_each_party(buildings, key_rounds);
    law_parties_recover_what_was_made(buildings.last(), message, built);
    law_session_has_the_mask_of_its_commitment(
        buildings.last(),
        message,
        built,
        mask,
        payment_id,
        utxo,
        session_id@,
        utxos,
        args,
        Ok(config),
    );
    law_one_record_for_each_commitment(parties, rounds, output);
    assert(rounds[0].leads(parties[0], parties[1]));
    assert(rounds[0].is_right(derived_key, public_key, verifies));
    assert(rounds[0].derivation.party == parties[0]);
    assert(rounds[0].derivation.are_keys(parties[0].commitment_mask, parties[0].member_public_key));
    assert(parties[0].commitment() == hex_text(utxo.commitment@));
    law_hex_text_is_read_back(utxo.commitment@);
    assert(rounds[0].signing.message@ == utxo.commitment@);
    assert(key_rounds[j].asked == buildings[0].public_keys@[j]);
    assert(buildings.last().ephemeral_pubkeys@[j] == key_rounds[j].reply);
    assert(output.leader.commitment_signatures@[0] == rounds[0].signing.leader_record(
        rounds[0].signature,
        rounds[0].secret,
    ));
    assert(output.member.commitment_signatures@[0] == rounds[0].signing.member_record(rounds[0].signature));
}

/// Whether a party made its part of a session, from the start over a number of rounds to the end.
pub open spec fn is_part(
    config: MultisigOutput,
    session_id: String,
    spend_key: CompressedPublicKey,
    parties: Seq<PartyMember>,
    rounds: Seq<PartyRound>,
    output: MultisigPartyOutput,
) -> bool {
    &&& parties.len() == rounds.len() + 1
    &&& is_start(config, session_id, spend_key, Ok(parties[0]))
    &&& forall|i: int| 0 <= i < rounds.len() ==> (#[trigger] rounds[i]).leads(parties[i], parties[i + 1])
    &&& parties.last().is_next(PartyStep::Done(output))
}

/// A party's part is of one session in all its rounds.
pub proof fn lemma_party_keeps_the_session(
    config: MultisigOutput,
    session_id: String,
    spend_key: CompressedPublicKey,
    parties: Seq<PartyMember>,
    rounds: Seq<PartyRound>,
    output: MultisigPartyOutput,
    i: int,
)
    requires
        is_part(config, session_id, spend_key, parties, rounds, output),
        0 <= i < parties.len(),
    ensures
        parties[i].session_id == session_id,
        parties[i].member_public_key == spend_key,
        parties[i].commitment_mask == config.commitment_mask,
        parties[i].commitments == config.commitments,
        config.recipient_address.public_view_key == Some(parties[i].view_key),
        parties[i].index() == i,
    decreases i,
{
    if i > 0 {
        lemma_party_keeps_the_session(config, session_id, spend_key, parties, rounds, output, i - 1);
        assert(rounds[i - 1].leads(parties[i - 1], parties[i]));
    }
}

/// A party's part of a session is under its name and its spend key, which is one of the session's, with one record for each
/// commitment.
pub proof fn law_part_is_of_the_session(
    config: MultisigOutput,
    session_id: String,
    spend_key: CompressedPublicKey,
    parties: Seq<PartyMember>,
    rounds: Seq<PartyRound>,
    output: MultisigPartyOutput,
)
    requires
        is_part(config, session_id, spend_key, parties, rounds, output),
    ensures
        config.parties_public_keys@.contains(spend_key),
        output.leader.session_id@ == session_id@,
        output.member.session_id@ == session_id@,
        output.leader.member_public_key == spend_key,
        output.member.member_public_key == spend_key,
        output.leader.commitment_signatures@.len() == config.commitments@.len(),
        output.member.commitment_signatures@.len() == config.commitments@.len(),
        rounds.len() == config.commitments@.len(),
{
    law_one_record_for_each_commitment(parties, rounds, output);
    lemma_records_of_rounds(parties, rounds);
}

/// What a party gives to the leader and what it keeps are the two sides of the same keys: each public key in a record for the
/// leader is that of the private key that the party keeps for the same use, the secret is the one that the party's sender
/// offset key shares with the view key of the session's recipient, and the signature over the commitment of the session at
/// the same position verifies under the script key. The script key is the one that the session's mask and the
/// party's spend key give. This holds whatever the key manager, the derivation, the signature scheme and the shared
/// secret are, if the wallet replies as they say.
pub proof fn law_what_is_given_belongs_to_what_is_kept(
    derived_key: spec_fn(Seq<u8>, CompressedPublicKey) -> CompressedPublicKey,
    public_key: spec_fn(TariKeyId) -> CompressedPublicKey,
    verifies: spec_fn(CompressedPublicKey, Seq<u8>, CheckSigSchnorrSignature) -> bool,
    shared_secret: spec_fn(TariKeyId, CompressedPublicKey) -> CompressedPublicKey,
    config: MultisigOutput,
    session_id: String,
    spend_key: CompressedPublicKey,
    parties: Seq<PartyMember>,
    rounds: Seq<PartyRound>,
    output: MultisigPartyOutput,
    i: int,
    commitment: Seq<u8>,
)
    requires
        is_part(config, session_id, spend_key, parties, rounds, output),
        forall|k: int| 0 <= k < rounds.len() ==> (#[trigger] rounds[k]).is_right(derived_key, public_key, verifies),
        forall|k: int| 0 <= k < rounds.len() ==> (#[trigger] rounds[k]).is_paired(public_key, shared_secret),
        0 <= i < config.commitments@.len(),
        hex_decode(config.commitments@[i]@) == Ok::<Seq<u8>, Seq<char>>(commitment),
    ensures
        output.leader.commitment_signatures@.len() == config.commitments@.len(),
        output.member.commitment_signatures@.len() == config.commitments@.len(),
        ({
            let given = output.leader.commitment_signatures@[i];
            let kept = output.member.commitment_signatures@[i];
            &&& given.script_nonce_key == public_key(kept.script_nonce_key_id)
            &&& given.sender_offset_public_key == public_key(kept.sender_offset_key)
            &&& given.sender_offset_public_nonce_key == public_key(kept.sender_offset_nonce_key)
            &&& given.ephemeral_pubkey == public_key(kept.ephemeral_pubkey_id)
            &&& given.ephemeral_pubkey == derived_key(config.commitment_mask@, spend_key)
            &&& config.recipient_address.public_view_key matches Some(view_key) && given.dh_shared_secret_public_key
                == shared_secret(kept.sender_offset_key, view_key)
            &&& given.signature == kept.signature
            &&& verifies(given.ephemeral_pubkey, commitment, given.signature)
        }),
        rounds[i].keys.script_nonce_key.pub_key == output.leader.commitment_signatures@[i].script_nonce_key,
        rounds[i].keys.sender_offset_key.pub_key == output.leader.commitment_signatures@[i].sender_offset_public_key,
        rounds[i].keys.sender_offset_nonce_key.pub_key
            == output.leader.commitment_signatures@[i].sender_offset_public_nonce_key,
        rounds[i].signature == output.leader.commitment_signatures@[i].signature,
{
    law_one_record_for_each_commitment(parties, rounds, output);
    lemma_party_keeps_the_session(config, session_id, spend_key, parties, rounds, output, i);
    let round = rounds[i];
    assert(round.leads(parties[i], parties[i + 1]));
    assert(round.is_right(derived_key, public_key, verifies));
    assert(round.is_paired(public_key, shared_secret));
    assert(round.derivation.are_keys(config.commitment_mask, spend_key));
    assert(round.signing.are_secret_keys(round.keys.sender_offset_key.key_id, parties[i].view_key));
    assert(output.leader.commitment_signatures@[i] == round.signing.leader_record(round.signature, round.secret));
    assert(output.member.commitment_signatures@[i] == round.signing.member_record(round.signature));
}

/// A wallet has a part in a session exactly where its spend key is one of the parties' and the recipient can be found.
pub proof fn law_only_parties_have_a_part(
    config: MultisigOutput,
    session_id: String,
    spend_key: CompressedPublicKey,
    r: Result<PartyMember, CommandError>,
)
    requires
        is_start(config, session_id, spend_key, r),
    ensures
        r is Ok <==> (exists|i: int|
            0 <= i < config.parties_public_keys@.len() && #[trigger] config.parties_public_keys@[i] == spend_key)
            && config.recipient_address.public_view_key is Some,
        r matches Err(e) ==> (e is PartyMemberNotFound <==> !config.parties_public_keys@.contains(spend_key)),
{
}

/// A party goes on exactly where the spend key is still its own, and signs exactly where the commitment that comes next is
/// written as 32 bytes. What it signs are those bytes.
pub proof fn law_party_signs_the_next_commitment(
    party: PartyMember,
    keys: RandomKeys,
    spend_key: CompressedPublicKey,
    keyed: Result<ScriptKeyDerivation, CommandError>,
    script_key: CompressedPublicKey,
    script_key_id: TariKeyId,
    derived: Result<Option<CommitmentSigning>, CommandError>,
)
    requires
        party.is_keyed(keys, spend_key, keyed),
        keyed matches Ok(derivation) ==> derivation.is_derived(script_key, script_key_id, derived),
    ensures
        keyed is Ok <==> spend_key == party.member_public_key,
        keyed is Ok ==> {
            let read = hex_decode(party.commitments@[party.leader@.len() as int]@);
            &&& derived is Err <==> read is Err
            &&& derived is Ok ==> (derived->Ok_0 is Some <==> read->Ok_0.len() == 32)
            &&& derived matches Ok(Some(signing)) ==> signing.message@ == read->Ok_0 && signing.key_id == script_key_id
                && signing.ephemeral_pubkey == script_key && signing.party == party && signing.keys == keys
        },
{
}

} // verus!
