//! The leader's part: completing the transaction with the parties' signatures.
use crate::key_map::KeyMap;
use crate::keys::group_order;
use crate::keys::same_bytes;
use crate::keys::CompressedPublicKey;
use crate::keys::PrivateKey;
use crate::script::differs_from;
use crate::script::lemma_filter_keeps;
use crate::sign::law_signatures_are_those_of_the_wallet;
use crate::sign::MemberSigning;
use crate::sign::SignStep;
use crate::sign::SigningRound;
use crate::types::MemberMultisigSignature;
use crate::types::MultisigEncumberOutput;
use crate::types::MultisigOutput;
use crate::types::Signature;
use vstd::arithmetic::div_mod::lemma_add_mod_noop_right;
use vstd::prelude::*;

verus! {

/// The parties of a session without the wallet's own key, in their order.
pub open spec fn other_parties(parties: Seq<CompressedPublicKey>, own: CompressedPublicKey) -> Seq<
    CompressedPublicKey,
> {
    parties.filter(differs_from(own))
}

fn without_own(parties: &Vec<CompressedPublicKey>, own: &CompressedPublicKey) -> (members: Vec<CompressedPublicKey>)
    ensures
        members@ == other_parties(parties@, *own),
{
    let mut members: Vec<CompressedPublicKey> = Vec::new();
    let mut i: usize = 0;
    proof {
        reveal(Seq::filter);
        assert(other_parties(parties@.take(0), *own) =~= Seq::empty());
    }
    while i < parties.len()
        invariant
            i <= parties@.len(),
            members@ == other_parties(parties@.take(i as int), *own),
        decreases parties@.len() - i,
    {
        proof {
            reveal(Seq::filter);
            assert(parties@.take(i + 1).drop_last() =~= parties@.take(i as int));
        }
        if !same_bytes(&parties[i], own) {
            members.push(parties[i]);
        }
        i += 1;
    }
    assert(parties@.take(parties@.len() as int) =~= parties@);
    members
}

/// What the leader has of the parties' signatures.
pub struct LeaderSending {
    /// The keys of the other parties.
    pub members: Vec<CompressedPublicKey>,
    /// The started transactions.
    pub encumbers: Vec<MultisigEncumberOutput>,
    /// The parties' signatures, by the keys of the script.
    pub records: KeyMap<Vec<MemberMultisigSignature>>,
}

/// What the leader asks the wallet for while sending.
pub enum SendStep {
    /// The signatures of a party.
    LoadSignatures(SignatureLoad),
    /// The script key of a party whose signatures are there.
    DeriveKey(KeyDerivation),
    /// Nothing: all parties were asked.
    Loaded(LeaderSending),
    /// The script key of a party whose signatures are to be used.
    FindKey(KeyLookup),
    /// To complete the transaction with the signatures of a party.
    Finalize(Finalization),
    /// Nothing: all is done.
    Done,
}

/// The leader waits for the signatures of a party.
pub struct SignatureLoad {
    /// What the leader has so far.
    pub state: LeaderSending,
    /// The position of the party.
    pub index: usize,
}

/// The leader waits for the script key of a party whose signatures are there.
pub struct KeyDerivation {
    /// What the leader has so far.
    pub state: LeaderSending,
    /// The position of the party.
    pub index: usize,
    /// The signatures of the party.
    pub signatures: Vec<MemberMultisigSignature>,
}

/// The leader waits for the script key of a party whose signatures are to be used.
pub struct KeyLookup {
    /// What the leader has.
    pub state: LeaderSending,
    /// The position of the party.
    pub index: usize,
}

/// The leader waits for the transaction to be completed with the signatures of a party.
pub struct Finalization {
    /// What the leader has.
    pub state: LeaderSending,
    /// The position of the party.
    pub index: usize,
    /// The name of the transaction.
    pub tx_id: u64,
    /// The party's signatures over the new outputs.
    pub metadata_signatures: Vec<Signature>,
    /// The party's signatures over the inputs.
    pub script_signatures: Vec<Signature>,
    /// The sum of the party's script offsets.
    pub script_offset: PrivateKey,
}

impl LeaderSending {
    /// Whether a step is the one that comes when the parties before a position were asked for their signatures.
    pub open spec fn is_next_load(self, from: int, step: SendStep) -> bool {
        match step {
            SendStep::LoadSignatures(load) => {
                &&& from < self.members@.len()
                &&& load.state == self
                &&& load.index == from
            },
            SendStep::Loaded(state) => from >= self.members@.len() && state == self,
            _ => false,
        }
    }

    /// Whether a step is the one that comes when the transaction was completed for the parties before a position.
    pub open spec fn is_next_find(self, from: int, step: SendStep) -> bool {
        match step {
            SendStep::FindKey(lookup) => {
                &&& from < self.members@.len()
                &&& lookup.state == self
                &&& lookup.index == from
            },
            SendStep::Done => from >= self.members@.len(),
            _ => false,
        }
    }

    /// Whether there is a transaction for the parties' signatures.
    pub open spec fn is_covered(self) -> bool {
        self.members@.len() == 0 || self.encumbers@.len() > 0
    }

    fn next_load(self, from: usize) -> (step: SendStep)
        ensures
            self.is_next_load(from as int, step),
    {
        if from < self.members.len() {
            SendStep::LoadSignatures(SignatureLoad { state: self, index: from })
        } else {
            SendStep::Loaded(self)
        }
    }

    fn next_find(self, from: usize) -> (step: SendStep)
        ensures
            self.is_next_find(from as int, step),
    {
        if from < self.members.len() {
            SendStep::FindKey(KeyLookup { state: self, index: from })
        } else {
            SendStep::Done
        }
    }
}

/// Whether a step is the one that collecting the signatures of a session starts with.
pub open spec fn is_sending(
    config: MultisigOutput,
    encumbers: Vec<MultisigEncumberOutput>,
    own_key: CompressedPublicKey,
    step: SendStep,
) -> bool {
    exists|state: LeaderSending|
        {
            &&& state.members@ == other_parties(config.parties_public_keys@, own_key)
            &&& state.encumbers == encumbers
            &&& state.records@ == Map::<CompressedPublicKey, Vec<MemberMultisigSignature>>::empty()
            &&& #[trigger] state.is_next_load(0, step)
        }
}

/// Starts collecting the signatures of the other parties of a session.
pub fn send_multisig_utxo_by_leader(
    config: &MultisigOutput,
    encumbers: Vec<MultisigEncumberOutput>,
    own_key: &CompressedPublicKey,
) -> (step: SendStep)
    ensures
        is_sending(*config, encumbers, *own_key, step),
{
    let state = LeaderSending {
        members: without_own(&config.parties_public_keys, own_key),
        encumbers,
        records: KeyMap::new(),
    };
    let ghost start = state;
    let step = state.next_load(0);
    assert(start.is_next_load(0, step));
    step
}

impl SignatureLoad {
    /// Whether a step is the one that follows: the script key of the party where its signatures are there, and the next
    /// party where they are not.
    pub open spec fn is_followed(self, signatures: Option<Vec<MemberMultisigSignature>>, step: SendStep) -> bool {
        match signatures {
            Some(signatures) => step == SendStep::DeriveKey(
                KeyDerivation { state: self.state, index: self.index, signatures },
            ),
            None => self.state.is_next_load(self.index + 1, step),
        }
    }

    /// Whether a key is that of the party whose signatures are to be loaded.
    pub open spec fn is_member(self, key: CompressedPublicKey) -> bool {
        key == self.state.members@[self.index as int]
    }

    /// The key of the party whose signatures are to be loaded.
    pub fn member(&self) -> (key: CompressedPublicKey)
        requires
            self.index < self.state.members@.len(),
        ensures
            self.is_member(key),
    {
        self.state.members[self.index]
    }

    /// Takes the signatures of the party. A party without is left out.
    pub fn loaded(self, signatures: Option<Vec<MemberMultisigSignature>>) -> (step: SendStep)
        requires
            self.index < self.state.members@.len(),
        ensures
            self.is_followed(signatures, step),
    {
        match signatures {
            Some(signatures) => SendStep::DeriveKey(
                KeyDerivation { state: self.state, index: self.index, signatures },
            ),
            None => {
                assert(self.index < self.state.members.len());
                self.state.next_load(self.index + 1)
            },
        }
    }
}

impl KeyDerivation {
    /// Whether a key is that of the party whose script key is to be derived.
    pub open spec fn is_member(self, key: CompressedPublicKey) -> bool {
        key == self.state.members@[self.index as int]
    }

    /// The key of the party whose script key is to be derived.
    pub fn member(&self) -> (key: CompressedPublicKey)
        requires
            self.index < self.state.members@.len(),
        ensures
            self.is_member(key),
    {
        self.state.members[self.index]
    }

    /// Whether a state is this one with the party's signatures under its script key, if there is one.
    pub open spec fn is_extended(self, script_key: Option<CompressedPublicKey>, state: LeaderSending) -> bool {
        &&& state.members == self.state.members
        &&& state.encumbers == self.state.encumbers
        &&& state.records@ == match script_key {
            Some(key) => self.state.records@.insert(key, self.signatures),
            None => self.state.records@,
        }
    }

    /// Whether a step is the one that follows the script key: the next party comes, with the signatures kept.
    pub open spec fn is_followed(self, script_key: Option<CompressedPublicKey>, step: SendStep) -> bool {
        exists|state: LeaderSending|
            self.is_extended(script_key, state) && #[trigger] state.is_next_load(self.index + 1, step)
    }

    /// Takes the script key of the party. A party without is left out.
    pub fn derived(self, script_key: Option<CompressedPublicKey>) -> (step: SendStep)
        requires
            self.index < self.state.members@.len(),
        ensures
            self.is_followed(script_key, step),
    {
        let ghost before = self;
        let LeaderSending { members, encumbers, records } = self.state;
        let records = match script_key {
            Some(key) => records.insert(key, self.signatures),
            None => records,
        };
        let state = LeaderSending { members, encumbers, records };
        let ghost extended = state;
        assert(self.index < state.members.len());
        let step = state.next_load(self.index + 1);
        assert(before.is_extended(script_key, extended) && extended.is_next_load(before.index + 1, step));
        step
    }
}

impl LeaderSending {
    /// Starts completing the transaction with the parties' signatures.
    pub fn send(self) -> (step: SendStep)
        requires
            self.is_covered(),
        ensures
            self.is_next_find(0, step),
    {
        self.next_find(0)
    }
}

/// The sum of script offsets, in the group's scalars.
pub open spec fn offset_total(signatures: Seq<MemberMultisigSignature>) -> nat
    decreases signatures.len(),
{
    if signatures.len() == 0 {
        0
    } else {
        (offset_total(signatures.drop_last()) + signatures.last().script_offset.value()) % group_order()
    }
}

proof fn lemma_zero_bytes_have_value_zero(bytes: Seq<u8>)
    requires
        forall|i: int| 0 <= i < bytes.len() ==> bytes[i] == 0,
    ensures
        crate::keys::le_value(bytes) == 0,
    decreases bytes.len(),
{
    if bytes.len() > 0 {
        lemma_zero_bytes_have_value_zero(bytes.skip(1));
    }
}

impl KeyLookup {
    /// Whether a key is that of the party whose script key is to be found.
    pub open spec fn is_member(self, key: CompressedPublicKey) -> bool {
        key == self.state.members@[self.index as int]
    }

    /// The key of the party whose script key is to be found.
    pub fn member(&self) -> (key: CompressedPublicKey)
        requires
            self.index < self.state.members@.len(),
        ensures
            self.is_member(key),
    {
        self.state.members[self.index]
    }

    /// Whether a request completes the transaction with given signatures: all of them, in their order, and the
    /// sum of their script offsets.
    pub open spec fn is_request(self, signatures: Seq<MemberMultisigSignature>, request: Finalization) -> bool {
        &&& request.state == self.state
        &&& request.index == self.index
        &&& request.tx_id == self.state.encumbers@[0].tx_id
        &&& request.metadata_signatures@ == signatures.map_values(|s: MemberMultisigSignature| s.metadata_signature)
        &&& request.script_signatures@ == signatures.map_values(|s: MemberMultisigSignature| s.script_signature)
        &&& request.script_offset.value() == offset_total(signatures)
    }

    /// Whether a step is the one that follows the script key: the transaction is completed with the signatures under it,
    /// or the next party comes where there is no script key or no signatures.
    pub open spec fn is_followed(self, script_key: Option<CompressedPublicKey>, step: SendStep) -> bool {
        match script_key {
            Some(key) => if self.state.records@.dom().contains(key) {
                step matches SendStep::Finalize(request) && self.is_request(self.state.records@[key]@, request)
            } else {
                self.state.is_next_find(self.index + 1, step)
            },
            None => self.state.is_next_find(self.index + 1, step),
        }
    }

    /// Takes the script key of the party, and gathers the signatures under it. A party without a script key or
    /// without signatures is left out.
    pub fn found(self, script_key: Option<CompressedPublicKey>) -> (step: SendStep)
        requires
            self.index < self.state.members@.len(),
            self.state.encumbers@.len() > 0,
        ensures
            self.is_followed(script_key, step),
    {
        assert(self.index < self.state.members.len());
        let key = match script_key {
            Some(key) => key,
            None => {
                return self.state.next_find(self.index + 1);
            },
        };
        let signatures = match self.state.records.get(&key) {
            Some(signatures) => signatures,
            None => {
                return self.state.next_find(self.index + 1);
            },
        };
        let ghost all = signatures@;
        let mut metadata_signatures: Vec<Signature> = Vec::new();
        let mut script_signatures: Vec<Signature> = Vec::new();
        let mut script_offset = PrivateKey::zero();
        proof {
            lemma_zero_bytes_have_value_zero(script_offset@);
            assert(all.take(0).map_values(|s: MemberMultisigSignature| s.metadata_signature) =~= Seq::empty());
            assert(all.take(0).map_values(|s: MemberMultisigSignature| s.script_signature) =~= Seq::empty());
        }
        let mut i: usize = 0;
        while i < signatures.len()
            invariant
                all == signatures@,
                i <= all.len(),
                metadata_signatures@ == all.take(i as int).map_values(
                    |s: MemberMultisigSignature| s.metadata_signature,
                ),
                script_signatures@ == all.take(i as int).map_values(|s: MemberMultisigSignature| s.script_signature),
                script_offset.value() == offset_total(all.take(i as int)),
            decreases all.len() - i,
        {
            let ghost next = all.take(i + 1);
            assert(next.drop_last() =~= all.take(i as int));
            metadata_signatures.push(signatures[i].metadata_signature);
            script_signatures.push(signatures[i].script_signature);
            script_offset = script_offset.plus(&signatures[i].script_offset);
            assert(metadata_signatures@ =~= next.map_values(|s: MemberMultisigSignature| s.metadata_signature));
            assert(script_signatures@ =~= next.map_values(|s: MemberMultisigSignature| s.script_signature));
            i += 1;
        }
        assert(all.take(all.len() as int) =~= all);
        let tx_id = self.state.encumbers[0].tx_id;
        SendStep::Finalize(
            Finalization {
                state: self.state,
                index: self.index,
                tx_id,
                metadata_signatures,
                script_signatures,
                script_offset,
            },
        )
    }
}

impl Finalization {
    /// Whether a step is the one that follows: the next party where the transaction was completed, and the end where it
    /// was not.
    pub open spec fn is_finalized(self, completed: bool, step: SendStep) -> bool {
        if completed {
            self.state.is_next_find(self.index + 1, step)
        } else {
            step is Done
        }
    }

    /// Goes on when the transaction was completed with the signatures of the party. Where it could not be, no
    /// other party is tried.
    pub fn finalized(self, completed: bool) -> (step: SendStep)
        requires
            self.index < self.state.members@.len(),
        ensures
            self.is_finalized(completed, step),
    {
        if completed {
            assert(self.index < self.state.members.len());
            self.state.next_find(self.index + 1)
        } else {
            SendStep::Done
        }
    }
}

/// The parties that the leader asks for signatures are all parties but the leader.
pub proof fn law_other_parties_are_all_but_own(parties: Seq<CompressedPublicKey>, own: CompressedPublicKey)
    ensures
        forall|key: CompressedPublicKey| #[trigger]
            other_parties(parties, own).contains(key) <==> parties.contains(key) && key != own,
{
    lemma_filter_keeps(parties, differs_from(own));
    let others = other_parties(parties, own);
    assert forall|key: CompressedPublicKey| #[trigger] others.contains(key) <==> parties.contains(key) && key
        != own by {
        if others.contains(key) {
            let i = choose|i: int| 0 <= i < others.len() && others[i] == key;
            assert(differs_from(own)(others[i]) && parties.contains(others[i]));
        }
        if parties.contains(key) && key != own {
            let i = choose|i: int| 0 <= i < parties.len() && parties[i] == key;
            assert(differs_from(own)(parties[i]));
        }
    }
}

/// What script offsets add up to as numbers.
pub open spec fn plain_offset_total(signatures: Seq<MemberMultisigSignature>) -> nat
    decreases signatures.len(),
{
    if signatures.len() == 0 {
        0
    } else {
        plain_offset_total(signatures.drop_last()) + signatures.last().script_offset.value()
    }
}

/// The script offset that completes a transaction is the sum of the party's script offsets modulo the order of the
/// group.
pub proof fn law_offset_is_the_sum_of_offsets(signatures: Seq<MemberMultisigSignature>)
    ensures
        offset_total(signatures) == plain_offset_total(signatures) % group_order(),
    decreases signatures.len(),
{
    if signatures.len() > 0 {
        law_offset_is_the_sum_of_offsets(signatures.drop_last());
        let sum = plain_offset_total(signatures.drop_last()) as int;
        let last = signatures.last().script_offset.value() as int;
        lemma_add_mod_noop_right(last, sum, group_order() as int);
    }
}

/// What the wallet replied about one party while the signatures were collected.
pub struct LoadRound {
    /// The party's signatures, if they could be loaded.
    pub signatures: Option<Vec<MemberMultisigSignature>>,
    /// The party's script key, if it could be derived.
    pub script_key: Option<CompressedPublicKey>,
}

impl LoadRound {
    /// Whether the replies lead from one state to another.
    pub open spec fn leads(self, index: usize, before: LeaderSending, after: LeaderSending) -> bool {
        match self.signatures {
            Some(signatures) => (KeyDerivation { state: before, index, signatures }).is_extended(
                self.script_key,
                after,
            ),
            None => after == before,
        }
    }

    /// Whether the replies give signatures for a script key.
    pub open spec fn gives(self, key: CompressedPublicKey) -> bool {
        self.signatures is Some && self.script_key == Some(key)
    }
}

proof fn lemma_signatures_are_kept(
    states: Seq<LeaderSending>,
    rounds: Seq<LoadRound>,
    i: int,
    key: CompressedPublicKey,
)
    requires
        states.len() == rounds.len() + 1,
        rounds.len() <= usize::MAX,
        forall|k: int|
            0 <= k < rounds.len() ==> (#[trigger] rounds[k]).leads(k as usize, states[k], states[k + 1]),
        0 <= i < rounds.len(),
        rounds[i].gives(key),
        forall|k: int| i < k < rounds.len() ==> !(#[trigger] rounds[k]).gives(key),
    ensures
        states.last().records@.dom().contains(key),
        states.last().records@[key] == rounds[i].signatures->Some_0,
    decreases rounds.len(),
{
    let n = rounds.len() - 1;
    let fewer = states.drop_last();
    assert(rounds[n].leads(n as usize, states[n], states[n + 1]));
    if i < n {
        assert forall|k: int| 0 <= k < n implies (#[trigger] rounds.drop_last()[k]).leads(
            k as usize,
            fewer[k],
            fewer[k + 1],
        ) by {
            assert(rounds[k].leads(k as usize, states[k], states[k + 1]));
        }
        assert forall|k: int| i < k < n implies !(#[trigger] rounds.drop_last()[k]).gives(key) by {
            assert(!rounds[k].gives(key));
        }
        lemma_signatures_are_kept(fewer, rounds.drop_last(), i, key);
        assert(fewer.last() == states[n]);
        assert(!rounds[n].gives(key));
    }
}

/// The transaction is completed for a party with the signatures that were loaded for it: all of them, in their order, and
/// the sum of their script offsets. This holds unless a later party has the same script key.
pub proof fn law_party_is_completed_with_its_signatures(
    states: Seq<LeaderSending>,
    rounds: Seq<LoadRound>,
    i: int,
    key: CompressedPublicKey,
    lookup: KeyLookup,
    step: SendStep,
)
    requires
        states.len() == rounds.len() + 1,
        rounds.len() <= usize::MAX,
        forall|k: int|
            0 <= k < rounds.len() ==> (#[trigger] rounds[k]).leads(k as usize, states[k], states[k + 1]),
        0 <= i < rounds.len(),
        rounds[i].gives(key),
        forall|k: int| i < k < rounds.len() ==> !(#[trigger] rounds[k]).gives(key),
        lookup.state == states.last(),
        lookup.is_followed(Some(key), step),
    ensures
        step matches SendStep::Finalize(request) && lookup.is_request(rounds[i].signatures->Some_0@, request),
{
    lemma_signatures_are_kept(states, rounds, i, key);
}

impl SendStep {
    /// What the leader has at a step. At the end it is left open.
    pub open spec fn state(self) -> LeaderSending {
        match self {
            SendStep::LoadSignatures(load) => load.state,
            SendStep::DeriveKey(derivation) => derivation.state,
            SendStep::Loaded(state) => state,
            SendStep::FindKey(lookup) => lookup.state,
            SendStep::Finalize(request) => request.state,
            SendStep::Done => arbitrary(),
        }
    }
}

impl LoadRound {
    /// Whether the replies lead from one step to another.
    pub open spec fn turns(self, before: SendStep, after: SendStep) -> bool {
        before matches SendStep::LoadSignatures(load) && match self.signatures {
            Some(signatures) => (KeyDerivation { state: load.state, index: load.index, signatures }).is_followed(
                self.script_key,
                after,
            ),
            None => load.is_followed(None, after),
        }
    }
}

proof fn lemma_loads_come_in_order(state: LeaderSending, steps: Seq<SendStep>, rounds: Seq<LoadRound>, i: int)
    requires
        steps.len() == rounds.len() + 1,
        state.is_next_load(0, steps[0]),
        forall|k: int| 0 <= k < rounds.len() ==> (#[trigger] rounds[k]).turns(steps[k], steps[k + 1]),
        0 <= i <= rounds.len(),
    ensures
        steps[i].state().members == state.members,
        steps[i].state().encumbers == state.encumbers,
        steps[i].state().is_next_load(i, steps[i]),
        i > 0 ==> rounds[i - 1].leads((i - 1) as usize, steps[i - 1].state(), steps[i].state()),
    decreases i,
{
    if i > 0 {
        lemma_loads_come_in_order(state, steps, rounds, i - 1);
        let k = i - 1;
        assert(rounds[k].turns(steps[k], steps[k + 1]));
    }
}

/// All other parties are asked for their signatures, each once and in their order, and the leader keeps what they gave.
pub proof fn law_each_party_is_asked_once(state: LeaderSending, steps: Seq<SendStep>, rounds: Seq<LoadRound>)
    requires
        steps.len() == rounds.len() + 1,
        state.is_next_load(0, steps[0]),
        forall|k: int| 0 <= k < rounds.len() ==> (#[trigger] rounds[k]).turns(steps[k], steps[k + 1]),
        steps.last() is Loaded,
    ensures
        rounds.len() == state.members@.len(),
        forall|i: int|
            0 <= i < rounds.len() ==> (#[trigger] steps[i] matches SendStep::LoadSignatures(load) && load.index == i
                && load.state.members == state.members),
        forall|i: int|
            0 <= i < rounds.len() ==> (#[trigger] rounds[i]).leads(
                i as usize,
                steps[i].state(),
                steps[i + 1].state(),
            ),
        steps.last().state().members == state.members,
        steps.last().state().encumbers == state.encumbers,
{
    assert forall|i: int| 0 <= i < rounds.len() implies (#[trigger] steps[i] matches SendStep::LoadSignatures(load)
        && load.index == i && load.state.members == state.members) by {
        lemma_loads_come_in_order(state, steps, rounds, i);
        assert(rounds[i].turns(steps[i], steps[i + 1]));
    }
    assert forall|i: int| 0 <= i < rounds.len() implies (#[trigger] rounds[i]).leads(
        i as usize,
        steps[i].state(),
        steps[i + 1].state(),
    ) by {
        lemma_loads_come_in_order(state, steps, rounds, i + 1);
    }
    let n = rounds.len() as int;
    lemma_loads_come_in_order(state, steps, rounds, n);
    if n > 0 {
        assert(steps[n - 1] is LoadSignatures);
        lemma_loads_come_in_order(state, steps, rounds, n - 1);
    }
}

/// What the wallet replied about one party while the transaction was completed.
pub struct SendRound {
    /// The party's script key, if it could be derived.
    pub script_key: Option<CompressedPublicKey>,
    /// The request to complete the transaction and whether it was completed, if there was a request.
    pub request: Option<(Finalization, bool)>,
}

impl SendRound {
    /// Whether the replies lead from one step to another.
    pub open spec fn turns(self, before: SendStep, after: SendStep) -> bool {
        before matches SendStep::FindKey(lookup) && match self.request {
            Some((request, completed)) => {
                &&& lookup.is_followed(self.script_key, SendStep::Finalize(request))
                &&& request.is_finalized(completed, after)
            },
            None => lookup.is_followed(self.script_key, after) && !(after is Finalize),
        }
    }

    /// Whether the transaction could not be completed.
    pub open spec fn fails(self) -> bool {
        self.request matches Some((request, completed)) && !completed
    }
}

proof fn lemma_requests_come_in_order(state: LeaderSending, steps: Seq<SendStep>, rounds: Seq<SendRound>, i: int)
    requires
        steps.len() == rounds.len() + 1,
        state.is_next_find(0, steps[0]),
        forall|k: int| 0 <= k < rounds.len() ==> (#[trigger] rounds[k]).turns(steps[k], steps[k + 1]),
        0 <= i <= rounds.len(),
    ensures
        state.is_next_find(i, steps[i]) || (i > 0 && rounds[i - 1].fails() && steps[i] is Done),
        i > 0 && rounds[i - 1].fails() ==> steps[i] is Done,
    decreases i,
{
    if i > 0 {
        let k = i - 1;
        lemma_requests_come_in_order(state, steps, rounds, k);
        assert(rounds[k].turns(steps[k], steps[k + 1]));
    }
}

/// The transaction is completed with the signatures of each other party that has some, once and in the parties' order,
/// up to the first time that it fails: every party before that has its turn, and gives exactly one request if there are
/// signatures under its script key, with all of them. A run that ends before the last party ends with a failure.
pub proof fn law_each_party_completes_once(state: LeaderSending, steps: Seq<SendStep>, rounds: Seq<SendRound>)
    requires
        steps.len() == rounds.len() + 1,
        state.is_next_find(0, steps[0]),
        forall|k: int| 0 <= k < rounds.len() ==> (#[trigger] rounds[k]).turns(steps[k], steps[k + 1]),
        steps.last() is Done,
    ensures
        rounds.len() <= state.members@.len(),
        forall|i: int|
            0 <= i < rounds.len() ==> (#[trigger] steps[i] matches SendStep::FindKey(lookup) && lookup.state == state
                && lookup.index == i),
        forall|i: int|
            0 <= i < rounds.len() ==> ((#[trigger] rounds[i]).request is Some <==> (rounds[i].script_key matches Some(
                key,
            ) && state.records@.dom().contains(key))),
        forall|i: int|
            0 <= i < rounds.len() && (#[trigger] rounds[i]).request is Some ==> (KeyLookup {
                state,
                index: i as usize,
            }).is_request(state.records@[rounds[i].script_key->Some_0]@, rounds[i].request->Some_0.0),
        forall|i: int| 0 <= i < rounds.len() - 1 ==> !(#[trigger] rounds[i]).fails(),
        rounds.len() < state.members@.len() ==> rounds.len() > 0 && rounds.last().fails(),
{
    assert forall|i: int| 0 <= i < rounds.len() implies (#[trigger] steps[i] matches SendStep::FindKey(lookup)
        && lookup.state == state && lookup.index == i) by {
        lemma_requests_come_in_order(state, steps, rounds, i);
        assert(rounds[i].turns(steps[i], steps[i + 1]));
    }
    assert forall|i: int| 0 <= i < rounds.len() - 1 implies !(#[trigger] rounds[i]).fails() by {
        lemma_requests_come_in_order(state, steps, rounds, i + 1);
        assert(steps[i + 1] is FindKey);
    }
    let n = rounds.len() as int;
    lemma_requests_come_in_order(state, steps, rounds, n);
    if n > 0 {
        assert(steps[n - 1] is FindKey);
        lemma_requests_come_in_order(state, steps, rounds, n - 1);
    }
    assert forall|i: int| 0 <= i < rounds.len() implies ((#[trigger] rounds[i]).request is Some <==> (
    rounds[i].script_key matches Some(key) && state.records@.dom().contains(key))) by {
        assert(steps[i] is FindKey);
        assert(rounds[i].turns(steps[i], steps[i + 1]));
    }
    assert forall|i: int| 0 <= i < rounds.len() && (#[trigger] rounds[i]).request is Some implies (KeyLookup {
        state,
        index: i as usize,
    }).is_request(state.records@[rounds[i].script_key->Some_0]@, rounds[i].request->Some_0.0) by {
        assert(steps[i] is FindKey);
        assert(rounds[i].turns(steps[i], steps[i + 1]));
    }
}

/// The other parties keep their order: those of parties behind one another are those of the first, and then those of the
/// rest. A single party is another one where its key is not the leader's.
pub proof fn law_other_parties_keep_their_order(
    a: Seq<CompressedPublicKey>,
    b: Seq<CompressedPublicKey>,
    key: CompressedPublicKey,
    own: CompressedPublicKey,
)
    ensures
        other_parties(a + b, own) == other_parties(a, own) + other_parties(b, own),
        other_parties(seq![key], own) == if key != own {
            seq![key]
        } else {
            Seq::empty()
        },
        other_parties(Seq::empty(), own).len() == 0,
{
    Seq::filter_distributes_over_add(a, b, differs_from(own));
    reveal(Seq::filter);
    let one = seq![key];
    assert(one.drop_last() =~= Seq::empty());
    assert(other_parties(Seq::empty(), own) =~= Seq::empty());
    assert(other_parties(one, own) =~= if key != own {
        one
    } else {
        Seq::empty()
    });
}

/// Offsets add up however they are grouped, and the sum of one is that offset.
pub proof fn law_offsets_add_up(
    a: Seq<MemberMultisigSignature>,
    b: Seq<MemberMultisigSignature>,
    one: MemberMultisigSignature,
)
    ensures
        plain_offset_total(a + b) == plain_offset_total(a) + plain_offset_total(b),
        plain_offset_total(seq![one]) == one.script_offset.value(),
        plain_offset_total(Seq::empty()) == 0,
    decreases b.len(),
{
    if b.len() == 0 {
        assert(a + b =~= a);
    } else {
        law_offsets_add_up(a, b.drop_last(), one);
        assert((a + b).drop_last() =~= a + b.drop_last());
        assert((a + b).last() == b.last());
    }
    assert(seq![one].drop_last() =~= Seq::empty());
    assert(plain_offset_total(Seq::<MemberMultisigSignature>::empty()) == 0);
}

proof fn lemma_encumbers_are_kept(states: Seq<LeaderSending>, rounds: Seq<LoadRound>)
    requires
        states.len() == rounds.len() + 1,
        rounds.len() <= usize::MAX,
        forall|k: int|
            0 <= k < rounds.len() ==> (#[trigger] rounds[k]).leads(k as usize, states[k], states[k + 1]),
    ensures
        states.last().encumbers == states[0].encumbers,
        states.last().members == states[0].members,
    decreases rounds.len(),
{
    if rounds.len() > 0 {
        let n = rounds.len() - 1;
        let fewer = states.drop_last();
        assert forall|k: int| 0 <= k < n implies (#[trigger] rounds.drop_last()[k]).leads(
            k as usize,
            fewer[k],
            fewer[k + 1],
        ) by {
            assert(rounds[k].leads(k as usize, states[k], states[k + 1]));
        }
        lemma_encumbers_are_kept(fewer, rounds.drop_last());
        assert(fewer.last() == states[n]);
        assert(rounds[n].leads(n as usize, states[n], states[n + 1]));
    }
}

/// What a party signed is what completes the transaction. Let a party sign transactions one after another and give its
/// records, and let the leader load them under the party's script key, with no later party under the same one. Then the
/// request to complete the transaction has, at each position, the nonce and the scalar of the signature over the new
/// output and those of the signature over the input that the party's wallet made there, and no others. It is for the first
/// started transaction, and its offset is the sum of the offsets that the party's wallet gave.
pub proof fn law_what_was_signed_completes_the_transaction(
    signing: Seq<MemberSigning>,
    signed: Seq<SigningRound>,
    signatures: Vec<MemberMultisigSignature>,
    states: Seq<LeaderSending>,
    rounds: Seq<LoadRound>,
    i: int,
    key: CompressedPublicKey,
    lookup: KeyLookup,
    step: SendStep,
)
    requires
        signing.len() == signed.len() + 1,
        signing[0].signatures@.len() == 0,
        forall|k: int| 0 <= k < signed.len() ==> (#[trigger] signed[k]).leads(signing[k], signing[k + 1]),
        signing.last().is_next(Ok(SignStep::Done(signatures))),
        states.len() == rounds.len() + 1,
        rounds.len() <= usize::MAX,
        forall|k: int|
            0 <= k < rounds.len() ==> (#[trigger] rounds[k]).leads(k as usize, states[k], states[k + 1]),
        0 <= i < rounds.len(),
        rounds[i].signatures == Some(signatures),
        rounds[i].script_key == Some(key),
        forall|k: int| i < k < rounds.len() ==> !(#[trigger] rounds[k]).gives(key),
        lookup.state == states.last(),
        lookup.is_followed(Some(key), step),
    ensures
        step is Finalize,
        ({
            let request = step->Finalize_0;
            &&& request.state == states.last()
            &&& request.index == lookup.index
            &&& request.tx_id == states[0].encumbers@[0].tx_id
            &&& request.metadata_signatures@.len() == signed.len()
            &&& request.script_signatures@.len() == signed.len()
            &&& signed.len() == signing[0].encumbers@.len()
            &&& forall|k: int|
                0 <= k < signed.len() ==> (#[trigger] request.metadata_signatures@[k]).public_nonce
                    == signed[k].metadata_signature.public_nonce && request.metadata_signatures@[k].signature
                    == signed[k].metadata_signature.signature
            &&& forall|k: int|
                0 <= k < signed.len() ==> (#[trigger] request.script_signatures@[k]).public_nonce
                    == signed[k].script_signature.public_nonce && request.script_signatures@[k].signature
                    == signed[k].script_signature.signature
            &&& request.script_offset.value() == plain_offset_total(signatures@) % group_order()
        }),
        signatures@.len() == signed.len(),
        forall|k: int|
            0 <= k < signed.len() ==> (#[trigger] signatures@[k]).script_offset.value()
                == signed[k].script_offset.value(),
{
    law_signatures_are_those_of_the_wallet(signing, signed);
    law_party_is_completed_with_its_signatures(states, rounds, i, key, lookup, step);
    law_offset_is_the_sum_of_offsets(signatures@);
    lemma_encumbers_are_kept(states, rounds);
    let request = step->Finalize_0;
    assert forall|k: int| 0 <= k < signed.len() implies (#[trigger] request.metadata_signatures@[k]).public_nonce
        == signed[k].metadata_signature.public_nonce && request.metadata_signatures@[k].signature
        == signed[k].metadata_signature.signature by {
        assert(signing.last().signatures@[k] == signatures@[k]);
        assert(request.metadata_signatures@[k] == signatures@[k].metadata_signature);
    }
    assert forall|k: int| 0 <= k < signed.len() implies (#[trigger] request.script_signatures@[k]).public_nonce
        == signed[k].script_signature.public_nonce && request.script_signatures@[k].signature
        == signed[k].script_signature.signature by {
        assert(signing.last().signatures@[k] == signatures@[k]);
        assert(request.script_signatures@[k] == signatures@[k].script_signature);
    }
}

/// The leader asks for the signatures of each other party of the session under that party's key, and for its script key
/// under the same, in the order of the session and without leaving one out.
pub proof fn law_each_party_is_asked_under_its_key(
    config: MultisigOutput,
    encumbers: Vec<MultisigEncumberOutput>,
    own_key: CompressedPublicKey,
    steps: Seq<SendStep>,
    rounds: Seq<LoadRound>,
    i: int,
    load: SignatureLoad,
    key: CompressedPublicKey,
)
    requires
        is_sending(config, encumbers, own_key, steps[0]),
        steps.len() == rounds.len() + 1,
        forall|k: int| 0 <= k < rounds.len() ==> (#[trigger] rounds[k]).turns(steps[k], steps[k + 1]),
        steps.last() is Loaded,
        0 <= i < rounds.len(),
        steps[i] == SendStep::LoadSignatures(load),
        load.is_member(key),
    ensures
        rounds.len() == other_parties(config.parties_public_keys@, own_key).len(),
        key == other_parties(config.parties_public_keys@, own_key)[i],
        rounds[i].signatures matches Some(signatures) ==> forall|derivation: KeyDerivation, other: CompressedPublicKey|
            load.is_followed(Some(signatures), SendStep::DeriveKey(derivation)) && #[trigger] derivation.is_member(
                other,
            ) ==> other == key && derivation.signatures == signatures,
        steps.last().state().encumbers == encumbers,
        steps.last().state().members@ == other_parties(config.parties_public_keys@, own_key),
{
    let state = choose|state: LeaderSending|
        {
            &&& state.members@ == other_parties(config.parties_public_keys@, own_key)
            &&& state.encumbers == encumbers
            &&& state.records@ == Map::<CompressedPublicKey, Vec<MemberMultisigSignature>>::empty()
            &&& #[trigger] state.is_next_load(0, steps[0])
        };
    law_each_party_is_asked_once(state, steps, rounds);
    assert(steps[i] is LoadSignatures);
}

/// The leader has signatures under exactly the script keys that were derived for parties whose signatures were there. So
/// no party is completed with signatures that nobody gave.
pub proof fn law_only_given_signatures_are_kept(
    states: Seq<LeaderSending>,
    rounds: Seq<LoadRound>,
    key: CompressedPublicKey,
)
    requires
        states.len() == rounds.len() + 1,
        rounds.len() <= usize::MAX,
        states[0].records@.dom() == Set::<CompressedPublicKey>::empty(),
        forall|k: int|
            0 <= k < rounds.len() ==> (#[trigger] rounds[k]).leads(k as usize, states[k], states[k + 1]),
    ensures
        states.last().records@.dom().contains(key) <==> exists|k: int|
            0 <= k < rounds.len() && (#[trigger] rounds[k]).signatures is Some && rounds[k].script_key == Some(key),
    decreases rounds.len(),
{
    if rounds.len() == 0 {
        assert(!states[0].records@.dom().contains(key));
    } else {
        let n = rounds.len() - 1;
        let fewer = states.drop_last();
        assert forall|k: int| 0 <= k < n implies (#[trigger] rounds.drop_last()[k]).leads(
            k as usize,
            fewer[k],
            fewer[k + 1],
        ) by {
            assert(rounds[k].leads(k as usize, states[k], states[k + 1]));
        }
        law_only_given_signatures_are_kept(fewer, rounds.drop_last(), key);
        assert(fewer.last() == states[n]);
        assert(rounds[n].leads(n as usize, states[n], states[n + 1]));
        if fewer.last().records@.dom().contains(key) {
            let k = choose|k: int|
                0 <= k < n && (#[trigger] rounds.drop_last()[k]).signatures is Some && rounds.drop_last()[k].script_key
                    == Some(key);
            assert(rounds[k].signatures is Some && rounds[k].script_key == Some(key));
        }
        if exists|k: int|
            0 <= k < rounds.len() && (#[trigger] rounds[k]).signatures is Some && rounds[k].script_key == Some(key) {
            let k = choose|k: int|
                0 <= k < rounds.len() && (#[trigger] rounds[k]).signatures is Some && rounds[k].script_key == Some(key);
            if k < n {
                assert(rounds.drop_last()[k].signatures is Some && rounds.drop_last()[k].script_key == Some(key));
            }
        }
    }
}

/// The leader finds the script key of each other party under that party's key, and what completes the transaction then are the
/// signatures under the script key that was found for it.
pub proof fn law_each_party_is_found_under_its_key(
    state: LeaderSending,
    steps: Seq<SendStep>,
    rounds: Seq<SendRound>,
    i: int,
    lookup: KeyLookup,
    key: CompressedPublicKey,
)
    requires
        steps.len() == rounds.len() + 1,
        state.is_next_find(0, steps[0]),
        forall|k: int| 0 <= k < rounds.len() ==> (#[trigger] rounds[k]).turns(steps[k], steps[k + 1]),
        steps.last() is Done,
        0 <= i < rounds.len(),
        steps[i] == SendStep::FindKey(lookup),
        lookup.is_member(key),
    ensures
        key == state.members@[i],
        rounds[i].request matches Some((request, completed)) ==> (rounds[i].script_key matches Some(script_key)
            && state.records@.dom().contains(script_key) && {
            let signatures = state.records@[script_key]@;
            &&& request.tx_id == state.encumbers@[0].tx_id
            &&& request.metadata_signatures@.len() == signatures.len()
            &&& request.script_signatures@.len() == signatures.len()
            &&& forall|k: int|
                0 <= k < signatures.len() ==> #[trigger] request.metadata_signatures@[k]
                    == signatures[k].metadata_signature
            &&& forall|k: int|
                0 <= k < signatures.len() ==> #[trigger] request.script_signatures@[k] == signatures[k].script_signature
            &&& request.script_offset.value() == plain_offset_total(signatures) % group_order()
        }),
{
    law_each_party_completes_once(state, steps, rounds);
    assert(steps[i] is FindKey);
    if rounds[i].request is Some {
        law_offset_is_the_sum_of_offsets(state.records@[rounds[i].script_key->Some_0]@);
        assert((KeyLookup { state, index: i as usize }).is_request(
            state.records@[rounds[i].script_key->Some_0]@,
            rounds[i].request->Some_0.0,
        ));
    }
}

} // verus!
