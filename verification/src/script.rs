//! The scripts that lock multisig outputs, and the keys in them.
use crate::crypto::encryption_key_of_public_key;
use crate::crypto::public_key_encryption_key;
use crate::error::ByteArrayError;
use crate::error::CommandError;
use crate::error::OutputManagerError;
use crate::key_map::KeyMap;
use crate::keys::is_neutral;
use crate::keys::is_point_error;
use crate::keys::le_value;
use crate::keys::lemma_identity_adds_nothing;
use crate::keys::lemma_points_commute;
use crate::keys::lemma_points_regroup;
use crate::keys::point_add;
use crate::keys::same_bytes;
use crate::keys::valid_point;
use crate::keys::zero_bytes;
use crate::keys::CompressedPublicKey;
use crate::keys::PrivateKey;
use crate::keys::RistrettoPublicKey;
use crate::text::decimal;
use crate::text::decimal_text;
use crate::text::enclosed;
use crate::text::joined;
use crate::types::CheckSigSchnorrSignature;
use crate::types::TariKeyAndId;
use crate::types::TariKeyId;
use digest::Digest;
use sha2::Sha256;
use tari_common_types::key_branches::TransactionKeyManagerBranch;
use vstd::prelude::*;
use vstd::utf8::encode_utf8;

verus! {

/// An instruction of a script.
pub enum Opcode {
    /// Takes signatures by at least so many of a number of keys over a message, and leaves the sum of the keys
    /// that signed.
    CheckMultiSigVerifyAggregatePubKey(u8, u8, Vec<CompressedPublicKey>, [u8; 32]),
    /// Leaves a public key.
    PushPubKey(CompressedPublicKey),
    /// Any other instruction, by its bytes.
    Other(Vec<u8>),
}

/// A script.
pub struct TariScript {
    /// The instructions, in order.
    pub script: Vec<Opcode>,
}

/// The keys and the number of signatures of the first multisig instruction of a script.
pub open spec fn multisig_components(script: Seq<Opcode>) -> Option<(Seq<CompressedPublicKey>, u8)>
    decreases script.len(),
{
    if script.len() == 0 {
        None
    } else {
        match script[0] {
            Opcode::CheckMultiSigVerifyAggregatePubKey(m, n, keys, message) => Some((keys@, m)),
            _ => multisig_components(script.skip(1)),
        }
    }
}

/// Whether a script holds a multisig instruction.
pub open spec fn holds_multisig(script: Seq<Opcode>) -> bool {
    exists|i: int| 0 <= i < script.len() && script[i] is CheckMultiSigVerifyAggregatePubKey
}

/// Tells whether a script locks a multisig output.
pub fn is_multisig_utxo(tari_script: &TariScript) -> (multisig: bool)
    ensures
        multisig == holds_multisig(tari_script.script@),
{
    let mut i: usize = 0;
    while i < tari_script.script.len()
        invariant
            i <= tari_script.script@.len(),
            forall|j: int|
                0 <= j < i ==> !(#[trigger] tari_script.script@[j] is CheckMultiSigVerifyAggregatePubKey),
        decreases tari_script.script@.len() - i,
    {
        match &tari_script.script[i] {
            Opcode::CheckMultiSigVerifyAggregatePubKey(_, _, _, _) => {
                assert(tari_script.script@[i as int] is CheckMultiSigVerifyAggregatePubKey);
                return true;
            },
            _ => {},
        }
        i += 1;
    }
    false
}

/// The keys and the number of signatures of a script, if it has a multisig instruction.
pub fn find_multisig_components(script: &TariScript) -> (r: Option<(Vec<CompressedPublicKey>, u8)>)
    ensures
        match r {
            Some((keys, m)) => multisig_components(script.script@) == Some((keys@, m)),
            None => multisig_components(script.script@) is None,
        },
{
    let mut i: usize = 0;
    assert(script.script@.skip(0) =~= script.script@);
    while i < script.script.len()
        invariant
            i <= script.script@.len(),
            multisig_components(script.script@) == multisig_components(script.script@.skip(i as int)),
        decreases script.script@.len() - i,
    {
        assert(script.script@.skip(i as int).skip(1) =~= script.script@.skip(i + 1));
        match &script.script[i] {
            Opcode::CheckMultiSigVerifyAggregatePubKey(m, _, keys, _) => {
                return Some((crate::list::copied(keys), *m));
            },
            _ => {},
        }
        i += 1;
    }
    None
}

/// The words for a script without a multisig instruction.
pub open spec fn invalid_script_words(tx_id: u64) -> Seq<char> {
    "Invalid script (TxId: "@ + decimal(tx_id as nat) + ")"@
}

/// Gets the keys and the number of signatures of a multisig script.
pub fn get_multi_sig_script_components(script: &TariScript, tx_id: u64) -> (r: Result<
    (Vec<CompressedPublicKey>, u8),
    OutputManagerError,
>)
    ensures
        match r {
            Ok((keys, m)) => multisig_components(script.script@) == Some((keys@, m)),
            Err(OutputManagerError::ServiceError(words)) => {
                multisig_components(script.script@) is None && words@ == invalid_script_words(tx_id)
            },
            Err(_) => false,
        },
{
    match find_multisig_components(script) {
        Some(components) => Ok(components),
        None => {
            let id = decimal_text(tx_id);
            Err(OutputManagerError::ServiceError(enclosed("Invalid script (TxId: ", id.as_str(), ")")))
        },
    }
}

/// The sum of keys, from the first to the last.
pub open spec fn point_sum(keys: Seq<CompressedPublicKey>) -> Seq<u8>
    decreases keys.len(),
{
    if keys.len() == 0 {
        zero_bytes()
    } else {
        point_add(point_sum(keys.drop_last()), keys.last()@)
    }
}

/// Whether all keys are points.
pub open spec fn all_points(keys: Seq<CompressedPublicKey>) -> bool {
    forall|i: int| 0 <= i < keys.len() ==> valid_point((#[trigger] keys[i])@)
}

/// Whether an error says that a key is no point.
pub open spec fn is_key_error(e: CommandError) -> bool {
    e matches CommandError::ByteArrayError(inner) && is_point_error(inner)
}

/// Whether keys have a given sum in whatever order they are added.
pub open spec fn sums_in_any_order(keys: Seq<CompressedPublicKey>, sum: Seq<u8>) -> bool {
    forall|other: Seq<CompressedPublicKey>|
        other.to_multiset() == keys.to_multiset() ==> #[trigger] point_sum(other) == sum
}

/// Whether keys have a given sum wherever they are parted, with the sums of the two parts added.
pub open spec fn sums_in_parts(keys: Seq<CompressedPublicKey>, sum: Seq<u8>) -> bool {
    forall|i: int|
        0 <= i <= keys.len() ==> point_add(#[trigger] point_sum(keys.take(i)), point_sum(keys.skip(i))) == sum
}

/// The sum of points is a point.
pub proof fn lemma_sum_is_point(keys: Seq<CompressedPublicKey>)
    requires
        is_neutral(zero_bytes()),
        all_points(keys),
    ensures
        valid_point(point_sum(keys)),
    decreases keys.len(),
{
    if keys.len() == 0 {
        lemma_zero_is_point();
    } else {
        assert(all_points(keys.drop_last())) by {
            assert forall|i: int| 0 <= i < keys.drop_last().len() implies valid_point(
                (#[trigger] keys.drop_last()[i])@,
            ) by {
                assert(keys.drop_last()[i] == keys[i]);
            }
        }
        lemma_sum_is_point(keys.drop_last());
        assert(valid_point(keys[keys.len() - 1]@));
        lemma_points_commute(point_sum(keys.drop_last()), keys.last()@);
    }
}

proof fn lemma_zero_is_point()
    requires
        is_neutral(zero_bytes()),
    ensures
        valid_point(zero_bytes()),
{
    reveal(is_neutral);
}

/// The sum of two lists of keys after one another is the sum of their sums. So no keys add nothing, one key is its own
/// sum, and a key that stands in both lists counts twice.
pub proof fn law_sums_of_lists_add_up(a: Seq<CompressedPublicKey>, b: Seq<CompressedPublicKey>)
    requires
        is_neutral(zero_bytes()),
        all_points(a),
        all_points(b),
    ensures
        point_sum(a + b) == point_add(point_sum(a), point_sum(b)),
        b.len() == 0 ==> point_sum(a + b) == point_sum(a),
        b.len() == 1 ==> point_sum(b) == b[0]@,
    decreases b.len(),
{
    lemma_sum_is_point(a);
    if b.len() == 0 {
        lemma_identity_adds_nothing(point_sum(a));
        assert(a + b =~= a);
    } else {
        let fewer = b.drop_last();
        assert forall|i: int| 0 <= i < fewer.len() implies valid_point((#[trigger] fewer[i])@) by {
            assert(fewer[i] == b[i]);
        }
        law_sums_of_lists_add_up(a, fewer);
        lemma_sum_is_point(fewer);
        assert(valid_point(b[b.len() - 1]@));
        lemma_points_regroup(point_sum(a), point_sum(fewer), b.last()@);
        assert((a + b).drop_last() =~= a + fewer);
        assert((a + b).last() == b.last());
        if b.len() == 1 {
            lemma_identity_adds_nothing(b.last()@);
            assert(point_sum(fewer) == zero_bytes());
        }
    }
}

/// Keys have one sum, in whatever order they are added.
pub proof fn law_sum_is_the_same_in_any_order(a: Seq<CompressedPublicKey>, b: Seq<CompressedPublicKey>)
    requires
        is_neutral(zero_bytes()),
        all_points(a),
        b.to_multiset() == a.to_multiset(),
    ensures
        point_sum(b) == point_sum(a),
        all_points(b),
    decreases a.len(),
{
    broadcast use vstd::seq_lib::group_to_multiset_ensures;

    assert(a.to_multiset().len() == a.len() && b.to_multiset().len() == b.len());
    if a.len() > 0 {
        let key = a.last();
        let fewer = a.drop_last();
        assert(a[a.len() - 1] == key);
        assert(a.contains(key));
        assert(b.to_multiset().count(key) > 0);
        assert(b.contains(key));
        let i = choose|i: int| 0 <= i < b.len() && b[i] == key;
        let before = b.take(i);
        let after = b.skip(i + 1);
        let rest = before + after;
        assert(b.remove(i) =~= rest);
        assert(a.remove(a.len() - 1) =~= fewer);
        assert(rest.to_multiset() == fewer.to_multiset());
        assert forall|k: int| 0 <= k < fewer.len() implies valid_point((#[trigger] fewer[k])@) by {
            assert(fewer[k] == a[k]);
        }
        law_sum_is_the_same_in_any_order(fewer, rest);
        assert forall|k: int| 0 <= k < before.len() implies valid_point((#[trigger] before[k])@) by {
            assert(rest[k] == before[k]);
        }
        assert forall|k: int| 0 <= k < after.len() implies valid_point((#[trigger] after[k])@) by {
            assert(rest[before.len() + k] == after[k]);
        }
        assert(valid_point(key@));
        let with_key = before.push(key);
        assert forall|k: int| 0 <= k < with_key.len() implies valid_point((#[trigger] with_key[k])@) by {
            if k < before.len() {
                assert(with_key[k] == before[k]);
            }
        }
        law_sums_of_lists_add_up(before, after);
        law_sums_of_lists_add_up(with_key, after);
        assert(with_key.drop_last() =~= before);
        assert(b =~= with_key + after);
        lemma_sum_is_point(before);
        lemma_sum_is_point(after);
        let x = point_sum(before);
        let y = point_sum(after);
        lemma_points_regroup(x, key@, y);
        lemma_points_commute(key@, y);
        lemma_points_regroup(x, y, key@);
        assert forall|k: int| 0 <= k < b.len() implies valid_point((#[trigger] b[k])@) by {
            if k < with_key.len() {
                assert(b[k] == with_key[k]);
            } else {
                assert(b[k] == after[k - with_key.len()]);
            }
        }
    }
}

/// Adds public keys up. Neither their order nor where they are parted changes the sum.
pub fn sum_public_keys(public_keys: &[CompressedPublicKey]) -> (r: Result<RistrettoPublicKey, CommandError>)
    ensures
        match r {
            Ok(sum) => {
                &&& all_points(public_keys@)
                &&& sum@ == point_sum(public_keys@)
                &&& sums_in_any_order(public_keys@, sum@)
                &&& sums_in_parts(public_keys@, sum@)
            },
            Err(e) => !all_points(public_keys@) && is_key_error(e),
        },
{
    let mut sum = RistrettoPublicKey::identity();
    let mut i: usize = 0;
    while i < public_keys.len()
        invariant
            i <= public_keys@.len(),
            is_neutral(zero_bytes()),
            all_points(public_keys@.take(i as int)),
            sum@ == point_sum(public_keys@.take(i as int)),
        decreases public_keys@.len() - i,
    {
        let ghost seen = public_keys@.take(i + 1);
        assert(seen.drop_last() =~= public_keys@.take(i as int));
        match RistrettoPublicKey::from_compressed(&public_keys[i]) {
            Ok(key) => {
                sum = sum.plus(&key);
            },
            Err(e) => {
                return Err(CommandError::ByteArrayError(e));
            },
        }
        assert forall|j: int| 0 <= j < seen.len() implies valid_point((#[trigger] seen[j])@) by {
            if j < i {
                assert(seen[j] == public_keys@.take(i as int)[j]);
            }
        }
        i += 1;
    }
    proof {
        let keys = public_keys@;
        assert(keys.take(keys.len() as int) =~= keys);
        assert forall|other: Seq<CompressedPublicKey>|
            other.to_multiset() == keys.to_multiset() implies #[trigger] point_sum(other) == sum@ by {
            law_sum_is_the_same_in_any_order(keys, other);
        }
        assert forall|j: int| 0 <= j <= keys.len() implies point_add(
            #[trigger] point_sum(keys.take(j)),
            point_sum(keys.skip(j)),
        ) == sum@ by {
            let left = keys.take(j);
            let right = keys.skip(j);
            assert forall|k: int| 0 <= k < left.len() implies valid_point((#[trigger] left[k])@) by {
                assert(left[k] == keys[k]);
            }
            assert forall|k: int| 0 <= k < right.len() implies valid_point((#[trigger] right[k])@) by {
                assert(right[k] == keys[j + k]);
            }
            law_sums_of_lists_add_up(left, right);
            assert(left + right =~= keys);
        }
    }
    Ok(sum)
}

/// The encryption key of the sum of public keys.
pub fn sum_public_keys_to_encryption_key(public_keys: &[CompressedPublicKey]) -> (r: Result<
    PrivateKey,
    CommandError,
>)
    ensures
        match r {
            Ok(key) => all_points(public_keys@) && key@ == public_key_encryption_key(point_sum(public_keys@)),
            Err(e) => !all_points(public_keys@) && is_key_error(e),
        },
{
    match sum_public_keys(public_keys) {
        Ok(sum) => Ok(encryption_key_of_public_key(&sum)),
        Err(e) => Err(e),
    }
}

/// The keys of a script that have a signature, in the order of the script.
pub open spec fn signing_keys(
    keys: Seq<CompressedPublicKey>,
    shares: Map<CompressedPublicKey, CheckSigSchnorrSignature>,
) -> Seq<CompressedPublicKey> {
    keys.filter(|key: CompressedPublicKey| shares.dom().contains(key))
}

/// The signatures of a script's keys, in the order of the script.
pub open spec fn script_signatures(
    keys: Seq<CompressedPublicKey>,
    shares: Map<CompressedPublicKey, CheckSigSchnorrSignature>,
) -> Seq<CheckSigSchnorrSignature> {
    signing_keys(keys, shares).map_values(|key: CompressedPublicKey| shares[key])
}

/// That a key is another than the wallet's own.
pub open spec fn differs_from(own: CompressedPublicKey) -> spec_fn(CompressedPublicKey) -> bool {
    |key: CompressedPublicKey| key != own
}

/// The keys of a script that have a signature, without the wallet's own, in the order of the script.
pub open spec fn co_signing_keys(
    keys: Seq<CompressedPublicKey>,
    shares: Map<CompressedPublicKey, CheckSigSchnorrSignature>,
    own: CompressedPublicKey,
) -> Seq<CompressedPublicKey> {
    signing_keys(keys, shares).filter(differs_from(own))
}

/// Takes one more key of a script into the lists of those that signed.
proof fn lemma_next_signing_key(
    keys: Seq<CompressedPublicKey>,
    shares: Map<CompressedPublicKey, CheckSigSchnorrSignature>,
    own: CompressedPublicKey,
    i: int,
)
    requires
        0 <= i < keys.len(),
    ensures
        shares.dom().contains(keys[i]) ==> {
            &&& script_signatures(keys.take(i + 1), shares) == script_signatures(keys.take(i), shares).push(
                shares[keys[i]],
            )
            &&& co_signing_keys(keys.take(i + 1), shares, own) == if keys[i] != own {
                co_signing_keys(keys.take(i), shares, own).push(keys[i])
            } else {
                co_signing_keys(keys.take(i), shares, own)
            }
        },
        !shares.dom().contains(keys[i]) ==> signing_keys(keys.take(i + 1), shares) == signing_keys(
            keys.take(i),
            shares,
        ),
{
    reveal(Seq::filter);
    let next = keys.take(i + 1);
    assert(next.drop_last() =~= keys.take(i));
    assert(next.last() == keys[i]);
    if shares.dom().contains(keys[i]) {
        let before = signing_keys(keys.take(i), shares);
        let after = signing_keys(next, shares);
        assert(after == before.push(keys[i]));
        assert(after.drop_last() =~= before);
        assert(script_signatures(next, shares) =~= script_signatures(keys.take(i), shares).push(shares[keys[i]]));
    }
}

/// More co-signers are points only if fewer are.
proof fn lemma_fewer_co_signers_are_points(
    keys: Seq<CompressedPublicKey>,
    shares: Map<CompressedPublicKey, CheckSigSchnorrSignature>,
    own: CompressedPublicKey,
    i: int,
)
    requires
        0 <= i <= keys.len(),
        all_points(co_signing_keys(keys, shares, own)),
    ensures
        all_points(co_signing_keys(keys.take(i), shares, own)),
    decreases keys.len() - i,
{
    if i == keys.len() {
        assert(keys.take(i) =~= keys);
    } else {
        lemma_fewer_co_signers_are_points(keys, shares, own, i + 1);
        lemma_next_signing_key(keys, shares, own, i);
        let fewer = co_signing_keys(keys.take(i), shares, own);
        let more = co_signing_keys(keys.take(i + 1), shares, own);
        assert forall|j: int| 0 <= j < fewer.len() implies valid_point((#[trigger] fewer[j])@) by {
            assert(fewer[j] == more[j]);
        }
    }
}

/// Collects the signatures of a script's keys in the order of the script, and adds up the keys that signed but
/// for the wallet's own.
pub fn collect_script_signatures(
    keys: &[CompressedPublicKey],
    shares: &KeyMap<CheckSigSchnorrSignature>,
    own: &CompressedPublicKey,
) -> (r: Result<(Vec<CheckSigSchnorrSignature>, RistrettoPublicKey), CommandError>)
    ensures
        match r {
            Ok((signatures, sum)) => {
                &&& all_points(co_signing_keys(keys@, shares@, *own))
                &&& signatures@ == script_signatures(keys@, shares@)
                &&& sum@ == point_sum(co_signing_keys(keys@, shares@, *own))
            },
            Err(e) => !all_points(co_signing_keys(keys@, shares@, *own)) && is_key_error(e),
        },
{
    let mut signatures: Vec<CheckSigSchnorrSignature> = Vec::new();
    let mut sum = RistrettoPublicKey::identity();
    let mut i: usize = 0;
    proof {
        reveal(Seq::filter);
        assert(script_signatures(keys@.take(0), shares@) =~= Seq::empty());
    }
    while i < keys.len()
        invariant
            i <= keys@.len(),
            all_points(co_signing_keys(keys@.take(i as int), shares@, *own)),
            signatures@ == script_signatures(keys@.take(i as int), shares@),
            sum@ == point_sum(co_signing_keys(keys@.take(i as int), shares@, *own)),
        decreases keys@.len() - i,
    {
        let ghost before = co_signing_keys(keys@.take(i as int), shares@, *own);
        let ghost after = co_signing_keys(keys@.take(i + 1), shares@, *own);
        proof {
            lemma_next_signing_key(keys@, shares@, *own, i as int);
        }
        match shares.get(&keys[i]) {
            Some(signature) => {
                signatures.push(*signature);
                if !same_bytes(&keys[i], own) {
                    assert(after == before.push(keys@[i as int]));
                    assert(after.drop_last() =~= before);
                    match RistrettoPublicKey::from_compressed(&keys[i]) {
                        Ok(key) => {
                            sum = sum.plus(&key);
                        },
                        Err(e) => {
                            proof {
                                if all_points(co_signing_keys(keys@, shares@, *own)) {
                                    lemma_fewer_co_signers_are_points(keys@, shares@, *own, i + 1);
                                    assert(valid_point(after[before.len() as int]@));
                                }
                            }
                            return Err(CommandError::ByteArrayError(e));
                        },
                    }
                    assert forall|j: int| 0 <= j < after.len() implies valid_point((#[trigger] after[j])@) by {
                        if j < before.len() {
                            assert(after[j] == before[j]);
                        }
                    }
                }
            },
            None => {},
        }
        i += 1;
    }
    assert(keys@.take(keys@.len() as int) =~= keys@);
    Ok((signatures, sum))
}

/// The script that is spent with a signature by one key.
pub fn push_pubkey_script(key: &CompressedPublicKey) -> (script: TariScript)
    ensures
        script.script@ == seq![Opcode::PushPubKey(*key)],
{
    let mut script: Vec<Opcode> = Vec::new();
    script.push(Opcode::PushPubKey(*key));
    assert(script@ =~= seq![Opcode::PushPubKey(*key)]);
    TariScript { script }
}

/// Gets the key that the secrets of a new multisig output are encrypted with, so that its parties can recover
/// them. The wallet is asked to import it.
pub fn derive_multisig_recovery_key_id(public_keys: &[CompressedPublicKey]) -> (r: Result<PrivateKey, CommandError>)
    ensures
        match r {
            Ok(key) => all_points(public_keys@) && key@ == public_key_encryption_key(point_sum(public_keys@)),
            Err(e) => {
                &&& !all_points(public_keys@)
                &&& e matches CommandError::General(words) && is_sum_failure(words@)
            },
        },
{
    match sum_public_keys_to_encryption_key(public_keys) {
        Ok(key) => Ok(key),
        Err(CommandError::ByteArrayError(e)) => {
            let words = e.message();
            Err(CommandError::General(joined("Failed to sum public keys: ", words.as_str())))
        },
        Err(e) => Err(e),
    }
}

/// Whether words say that keys could not be added up because one is no point.
pub open spec fn is_sum_failure(words: Seq<char>) -> bool {
    exists|e: ByteArrayError| #[trigger] is_point_error(e) && words == "Failed to sum public keys: "@ + e.words()
}

/// The digest of bytes by SHA-256.
pub uninterp spec fn sha256(bytes: Seq<u8>) -> Seq<u8>;

/// Calls `Sha256` of `sha2` through `Digest` of `digest`: a new hasher, one update, and the digest. The digest
/// is named `sha256`.
#[verifier::external_body]
fn digest_of(bytes: &[u8]) -> (digest: [u8; 32])
    ensures
        digest@ == sha256(bytes@),
{
    let mut hasher = Sha256::new();
    hasher.update(bytes);
    hasher.finalize().into()
}

/// A branch of keys of the key manager.
#[derive(Clone, Copy)]
pub enum KeyBranch {
    /// The sender offset keys.
    SenderOffset,
    /// The sender offset keys of outputs that the recipient takes no part in making.
    OneSidedSenderOffset,
}

impl KeyBranch {
    /// The name of the branch.
    pub open spec fn name(self) -> Seq<char> {
        match self {
            KeyBranch::SenderOffset => "sender offset"@,
            KeyBranch::OneSidedSenderOffset => "one sided sender offset"@,
        }
    }
}

/// Calls `TransactionKeyManagerBranch::get_branch_key` of `tari_common_types`, which gives the name of a branch:
/// "sender offset" or "one sided sender offset".
#[verifier::external_body]
pub(crate) fn branch_key(branch: KeyBranch) -> (name: String)
    ensures
        name@ == branch.name(),
{
    match branch {
        KeyBranch::SenderOffset => TransactionKeyManagerBranch::SenderOffset.get_branch_key(),
        KeyBranch::OneSidedSenderOffset => TransactionKeyManagerBranch::OneSidedSenderOffset.get_branch_key(),
    }
}

/// The index of a session's script key: the number of the first eight bytes of the digest of its name.
pub open spec fn script_key_index(session_id: Seq<char>) -> nat {
    le_value(sha256(encode_utf8(session_id)).take(8))
}

/// Whether a name is that of a session's script key.
pub open spec fn is_script_key(session_id: Seq<char>, id: TariKeyId) -> bool {
    match id {
        TariKeyId::Managed { branch, index } => {
            branch@ == "sender offset"@ && index == script_key_index(session_id)
        },
        _ => false,
    }
}

/// Whether a result is a script key with its public key, or the error that the wallet does not have it.
pub open spec fn is_found(
    key_id: TariKeyId,
    reply: Result<CompressedPublicKey, String>,
    r: Result<TariKeyAndId, CommandError>,
) -> bool {
    match reply {
        Ok(pub_key) => r matches Ok(key) && key.key_id == key_id && key.pub_key == pub_key,
        Err(words) => r matches Err(CommandError::General(text)) && text@ == "Failed to get public key: "@ + words@,
    }
}

/// Gets the name of a session's script key. The wallet is asked for its public key.
pub fn get_multisig_script_key(session_id: &str) -> (id: TariKeyId)
    ensures
        is_script_key(session_id@, id),
{
    let digest = digest_of(session_id.as_bytes());
    let low: u64 = digest[0] as u64 + 0x100 * digest[1] as u64 + 0x1_0000 * digest[2] as u64 + 0x100_0000
        * digest[3] as u64;
    let high: u64 = digest[4] as u64 + 0x100 * digest[5] as u64 + 0x1_0000 * digest[6] as u64 + 0x100_0000
        * digest[7] as u64;
    let index: u64 = low + 0x1_0000_0000 * high;
    proof {
        let bytes = digest@.take(8);
        reveal_with_fuel(le_value, 9);
        assert(bytes.skip(1).skip(1) =~= bytes.skip(2));
        assert(bytes.skip(2).skip(1) =~= bytes.skip(3));
        assert(bytes.skip(3).skip(1) =~= bytes.skip(4));
        assert(bytes.skip(4).skip(1) =~= bytes.skip(5));
        assert(bytes.skip(5).skip(1) =~= bytes.skip(6));
        assert(bytes.skip(6).skip(1) =~= bytes.skip(7));
        assert(bytes.skip(7).skip(1) =~= bytes.skip(8));
        assert(le_value(bytes.skip(8)) == 0);
        assert(le_value(bytes.skip(7)) == digest@[7]);
        assert(le_value(bytes.skip(6)) == digest@[6] + 256 * le_value(bytes.skip(7)));
        assert(le_value(bytes.skip(5)) == digest@[5] + 256 * le_value(bytes.skip(6)));
        assert(le_value(bytes.skip(4)) == digest@[4] + 256 * le_value(bytes.skip(5)));
        assert(le_value(bytes.skip(3)) == digest@[3] + 256 * le_value(bytes.skip(4)));
        assert(le_value(bytes.skip(2)) == digest@[2] + 256 * le_value(bytes.skip(3)));
        assert(le_value(bytes.skip(1)) == digest@[1] + 256 * le_value(bytes.skip(2)));
    }
    TariKeyId::Managed { branch: branch_key(KeyBranch::SenderOffset), index }
}

/// Takes the public key of a session's script key.
pub fn multisig_script_key_found(key_id: TariKeyId, reply: Result<CompressedPublicKey, String>) -> (r: Result<
    TariKeyAndId,
    CommandError,
>)
    ensures
        is_found(key_id, reply, r),
{
    match reply {
        Ok(pub_key) => Ok(TariKeyAndId { key_id, pub_key }),
        Err(words) => Err(CommandError::General(joined("Failed to get public key: ", words.as_str()))),
    }
}

/// A script gives its keys and its number of signatures exactly when it is a multisig script.
pub proof fn law_components_of_multisig_scripts(script: Seq<Opcode>)
    ensures
        multisig_components(script) is Some <==> holds_multisig(script),
    decreases script.len(),
{
    if script.len() > 0 {
        law_components_of_multisig_scripts(script.skip(1));
        if holds_multisig(script.skip(1)) {
            let i = choose|i: int|
                0 <= i < script.skip(1).len() && script.skip(1)[i] is CheckMultiSigVerifyAggregatePubKey;
            assert(script[i + 1] is CheckMultiSigVerifyAggregatePubKey);
        }
        if holds_multisig(script) && !(script[0] is CheckMultiSigVerifyAggregatePubKey) {
            let i = choose|i: int| 0 <= i < script.len() && script[i] is CheckMultiSigVerifyAggregatePubKey;
            assert(script.skip(1)[i - 1] is CheckMultiSigVerifyAggregatePubKey);
        }
    }
}

/// The keys and the number of signatures of a script are those of its first multisig instruction.
pub proof fn law_components_are_of_the_first_instruction(script: Seq<Opcode>, i: int)
    requires
        0 <= i < script.len(),
        script[i] is CheckMultiSigVerifyAggregatePubKey,
        forall|j: int| 0 <= j < i ==> !((#[trigger] script[j]) is CheckMultiSigVerifyAggregatePubKey),
    ensures
        script[i] matches Opcode::CheckMultiSigVerifyAggregatePubKey(m, n, keys, message) && multisig_components(script)
            == Some((keys@, m)),
    decreases script.len(),
{
    if i > 0 {
        assert(!(script[0] is CheckMultiSigVerifyAggregatePubKey));
        let rest = script.skip(1);
        assert forall|j: int| 0 <= j < i - 1 implies !((#[trigger] rest[j]) is CheckMultiSigVerifyAggregatePubKey) by {
            assert(rest[j] == script[j + 1]);
        }
        assert(rest[i - 1] == script[i]);
        law_components_are_of_the_first_instruction(rest, i - 1);
    }
}

/// The keys that signed, their signatures and the keys that are added up come in the order of the script: those of keys
/// behind one another are those of the first keys, and then those of the others. A single key counts where it has a
/// signature, and is added up where it is not the wallet's own.
pub proof fn law_signatures_keep_the_order_of_the_script(
    a: Seq<CompressedPublicKey>,
    b: Seq<CompressedPublicKey>,
    key: CompressedPublicKey,
    shares: Map<CompressedPublicKey, CheckSigSchnorrSignature>,
    own: CompressedPublicKey,
)
    ensures
        signing_keys(a + b, shares) == signing_keys(a, shares) + signing_keys(b, shares),
        script_signatures(a + b, shares) == script_signatures(a, shares) + script_signatures(b, shares),
        co_signing_keys(a + b, shares, own) == co_signing_keys(a, shares, own) + co_signing_keys(b, shares, own),
        signing_keys(seq![key], shares) == if shares.dom().contains(key) {
            seq![key]
        } else {
            Seq::empty()
        },
        script_signatures(seq![key], shares) == if shares.dom().contains(key) {
            seq![shares[key]]
        } else {
            Seq::empty()
        },
        co_signing_keys(seq![key], shares, own) == if shares.dom().contains(key) && key != own {
            seq![key]
        } else {
            Seq::empty()
        },
{
    let signed = |k: CompressedPublicKey| shares.dom().contains(k);
    Seq::filter_distributes_over_add(a, b, signed);
    Seq::filter_distributes_over_add(signing_keys(a, shares), signing_keys(b, shares), differs_from(own));
    assert(script_signatures(a + b, shares) =~= script_signatures(a, shares) + script_signatures(b, shares));
    let one = seq![key];
    let none = Seq::<CompressedPublicKey>::empty();
    assert(one =~= none.push(key));
    lemma_next_signing_key(one, shares, own, 0);
    assert(one.take(1) =~= one);
    assert(one.take(0) =~= none);
    reveal(Seq::filter);
    assert(signing_keys(none, shares) =~= none);
    assert(script_signatures(none, shares) =~= Seq::empty());
    assert(co_signing_keys(none, shares, own) =~= none);
    assert(one.drop_last() =~= none);
    assert(signing_keys(one, shares) =~= if shares.dom().contains(key) {
        one
    } else {
        none
    });
    assert(script_signatures(one, shares) =~= if shares.dom().contains(key) {
        seq![shares[key]]
    } else {
        Seq::empty()
    });
    assert(co_signing_keys(one, shares, own) =~= if shares.dom().contains(key) && key != own {
        one
    } else {
        none
    });
}

/// The script key of a session is a sender offset key, and its index is the number that the first eight bytes of the
/// digest of the session's name stand for, the lowest first.
pub proof fn law_script_key_is_of_the_session(session_id: Seq<char>, id: TariKeyId)
    requires
        is_script_key(session_id, id),
        sha256(encode_utf8(session_id)).len() >= 8,
    ensures
        ({
            let d = sha256(encode_utf8(session_id));
            id matches TariKeyId::Managed { branch, index } && branch@ == "sender offset"@ && index == d[0] + 0x100
                * d[1] + 0x1_0000 * d[2] + 0x100_0000 * d[3] + 0x1_0000_0000 * d[4] + 0x100_0000_0000 * d[5]
                + 0x1_0000_0000_0000 * d[6] + 0x100_0000_0000_0000 * d[7]
        }),
{
    let bytes = sha256(encode_utf8(session_id)).take(8);
    lemma_eight_bytes(bytes);
}

proof fn lemma_eight_bytes(bytes: Seq<u8>)
    requires
        bytes.len() == 8,
    ensures
        le_value(bytes) == bytes[0] + 0x100 * bytes[1] + 0x1_0000 * bytes[2] + 0x100_0000 * bytes[3] + 0x1_0000_0000
            * bytes[4] + 0x100_0000_0000 * bytes[5] + 0x1_0000_0000_0000 * bytes[6] + 0x100_0000_0000_0000 * bytes[7],
{
    reveal_with_fuel(le_value, 2);
    assert(bytes.skip(1).skip(1) =~= bytes.skip(2));
    assert(bytes.skip(2).skip(1) =~= bytes.skip(3));
    assert(bytes.skip(3).skip(1) =~= bytes.skip(4));
    assert(bytes.skip(4).skip(1) =~= bytes.skip(5));
    assert(bytes.skip(5).skip(1) =~= bytes.skip(6));
    assert(bytes.skip(6).skip(1) =~= bytes.skip(7));
    assert(bytes.skip(7).skip(1) =~= bytes.skip(8));
    assert(le_value(bytes.skip(8)) == 0);
    assert(le_value(bytes.skip(7)) == bytes[7]);
    assert(le_value(bytes.skip(6)) == bytes[6] + 256 * le_value(bytes.skip(7)));
    assert(le_value(bytes.skip(5)) == bytes[5] + 256 * le_value(bytes.skip(6)));
    assert(le_value(bytes.skip(4)) == bytes[4] + 256 * le_value(bytes.skip(5)));
    assert(le_value(bytes.skip(3)) == bytes[3] + 256 * le_value(bytes.skip(4)));
    assert(le_value(bytes.skip(2)) == bytes[2] + 256 * le_value(bytes.skip(3)));
    assert(le_value(bytes.skip(1)) == bytes[1] + 256 * le_value(bytes.skip(2)));
}

/// A session's script key is given with the name that was asked for and the public key that the wallet has under it.
pub proof fn law_found_script_key_is_the_wallets(
    session_id: Seq<char>,
    key_id: TariKeyId,
    reply: Result<CompressedPublicKey, String>,
    r: Result<TariKeyAndId, CommandError>,
)
    requires
        is_script_key(session_id, key_id),
        is_found(key_id, reply, r),
    ensures
        r is Ok <==> reply is Ok,
        r matches Ok(key) ==> is_script_key(session_id, key.key_id) && reply == Ok::<CompressedPublicKey, String>(
            key.pub_key,
        ),
        r matches Err(e) ==> (e matches CommandError::General(text) && text@.len() >= reply->Err_0@.len()
            && text@.skip(text@.len() - reply->Err_0@.len()) == reply->Err_0@),
{
    if let Err(words) = reply {
        let start = "Failed to get public key: "@;
        assert((start + words@).skip(start.len() as int) =~= words@);
    }
}

/// A filter keeps what fits, and nothing else.
pub proof fn lemma_filter_keeps<A>(s: Seq<A>, pred: spec_fn(A) -> bool)
    ensures
        s.filter(pred).len() <= s.len(),
        forall|i: int|
            0 <= i < s.filter(pred).len() ==> pred(#[trigger] s.filter(pred)[i]) && s.contains(s.filter(pred)[i]),
        forall|i: int| 0 <= i < s.len() && pred(#[trigger] s[i]) ==> s.filter(pred).contains(s[i]),
    decreases s.len(),
{
    reveal(Seq::filter);
    if s.len() > 0 {
        let rest = s.drop_last();
        lemma_filter_keeps(rest, pred);
        let kept = rest.filter(pred);
        assert forall|i: int| 0 <= i < s.filter(pred).len() implies pred(#[trigger] s.filter(pred)[i]) && s.contains(
            s.filter(pred)[i],
        ) by {
            if i < kept.len() {
                assert(s.filter(pred)[i] == kept[i]);
                let j = choose|j: int| 0 <= j < rest.len() && rest[j] == kept[i];
                assert(s[j] == kept[i]);
            } else {
                assert(s[s.len() - 1] == s.last());
            }
        }
        assert forall|i: int| 0 <= i < s.len() && pred(#[trigger] s[i]) implies s.filter(pred).contains(s[i]) by {
            if i < s.len() - 1 {
                assert(rest[i] == s[i]);
                let j = choose|j: int| 0 <= j < kept.len() && kept[j] == s[i];
                assert(s.filter(pred)[j] == s[i]);
            } else {
                assert(s.filter(pred)[kept.len() as int] == s[i]);
            }
        }
    }
}

/// A filter keeps what fits as often as it occurs, and nothing else.
proof fn lemma_filter_counts<A>(s: Seq<A>, pred: spec_fn(A) -> bool, x: A)
    ensures
        s.filter(pred).to_multiset().count(x) == if pred(x) {
            s.to_multiset().count(x)
        } else {
            0
        },
    decreases s.len(),
{
    broadcast use vstd::seq_lib::group_to_multiset_ensures;

    reveal(Seq::filter);
    if s.len() == 0 {
        assert(s.to_multiset().count(x) == 0);
    } else {
        let rest = s.drop_last();
        lemma_filter_counts(rest, pred, x);
        assert(s =~= rest.push(s.last()));
        assert(s.to_multiset() =~= rest.to_multiset().insert(s.last()));
    }
}

/// Where the wallet's own key stands once in a script and has signed, the sum of the other keys that signed with the own
/// key added is the sum of exactly the keys that signed.
pub proof fn law_own_key_completes_the_sum(
    keys: Seq<CompressedPublicKey>,
    shares: Map<CompressedPublicKey, CheckSigSchnorrSignature>,
    own: CompressedPublicKey,
)
    requires
        is_neutral(zero_bytes()),
        all_points(keys),
        keys.to_multiset().count(own) == 1,
        shares.dom().contains(own),
    ensures
        point_add(point_sum(co_signing_keys(keys, shares, own)), own@) == point_sum(signing_keys(keys, shares)),
{
    broadcast use vstd::seq_lib::group_to_multiset_ensures;

    let signed = |key: CompressedPublicKey| shares.dom().contains(key);
    let signing = signing_keys(keys, shares);
    let co = co_signing_keys(keys, shares, own);
    lemma_filter_counts(keys, signed, own);
    assert forall|i: int| 0 <= i < signing.len() implies valid_point((#[trigger] signing[i])@) by {
        lemma_filter_keeps(keys, signed);
        let j = choose|j: int| 0 <= j < keys.len() && keys[j] == signing[i];
        assert(valid_point(keys[j]@));
    }
    let all = co.push(own);
    assert(all.to_multiset() =~= signing.to_multiset()) by {
        assert forall|x: CompressedPublicKey| all.to_multiset().count(x) == signing.to_multiset().count(x) by {
            lemma_filter_counts(signing, differs_from(own), x);
        }
    }
    law_sum_is_the_same_in_any_order(signing, all);
    assert(all.drop_last() =~= co);
}

/// The signatures for a script stand one for one for keys of the script, each is that of its key, and every key of
/// the script that has a signature is among them.
pub proof fn law_signatures_are_those_of_the_keys(
    keys: Seq<CompressedPublicKey>,
    shares: Map<CompressedPublicKey, CheckSigSchnorrSignature>,
)
    ensures
        script_signatures(keys, shares).len() == signing_keys(keys, shares).len() <= keys.len(),
        forall|i: int|
            0 <= i < signing_keys(keys, shares).len() ==> {
                let key = #[trigger] signing_keys(keys, shares)[i];
                keys.contains(key) && shares.dom().contains(key) && script_signatures(keys, shares)[i]
                    == shares[key]
            },
        forall|i: int|
            0 <= i < keys.len() && shares.dom().contains(#[trigger] keys[i]) ==> signing_keys(keys, shares).contains(
                keys[i],
            ),
{
    lemma_filter_keeps(keys, |key: CompressedPublicKey| shares.dom().contains(key));
}

/// The wallet's own key is not among the keys that are added up, and every other key that signed is.
pub proof fn law_own_key_is_not_added(
    keys: Seq<CompressedPublicKey>,
    shares: Map<CompressedPublicKey, CheckSigSchnorrSignature>,
    own: CompressedPublicKey,
)
    ensures
        !co_signing_keys(keys, shares, own).contains(own),
        forall|key: CompressedPublicKey|
            key != own && #[trigger] signing_keys(keys, shares).contains(key) ==> co_signing_keys(
                keys,
                shares,
                own,
            ).contains(key),
        forall|key: CompressedPublicKey| #[trigger]
            co_signing_keys(keys, shares, own).contains(key) ==> signing_keys(keys, shares).contains(key),
{
    let signing = signing_keys(keys, shares);
    let co = co_signing_keys(keys, shares, own);
    lemma_filter_keeps(signing, differs_from(own));
    if co.contains(own) {
        let i = choose|i: int| 0 <= i < co.len() && co[i] == own;
        assert(co[i] != own);
    }
    assert forall|key: CompressedPublicKey| key != own && #[trigger] signing.contains(key) implies co.contains(
        key,
    ) by {
        let i = choose|i: int| 0 <= i < signing.len() && signing[i] == key;
        assert(co.contains(signing[i]));
    }
    assert forall|key: CompressedPublicKey| #[trigger] co.contains(key) implies signing.contains(key) by {
        let i = choose|i: int| 0 <= i < co.len() && co[i] == key;
        assert(co[i] != own && signing.contains(co[i]));
    }
}

/// Keys are all points exactly where each one is: those of two lists behind one another where those of both are, and a
/// single one where it is.
pub proof fn law_points_are_told_one_by_one(
    a: Seq<CompressedPublicKey>,
    b: Seq<CompressedPublicKey>,
    key: CompressedPublicKey,
)
    ensures
        all_points(a + b) <==> all_points(a) && all_points(b),
        all_points(seq![key]) <==> valid_point(key@),
        all_points(Seq::empty()),
{
    if all_points(a + b) {
        assert forall|i: int| 0 <= i < a.len() implies valid_point((#[trigger] a[i])@) by {
            assert((a + b)[i] == a[i]);
        }
        assert forall|i: int| 0 <= i < b.len() implies valid_point((#[trigger] b[i])@) by {
            assert((a + b)[a.len() + i] == b[i]);
        }
    }
    if all_points(seq![key]) {
        assert(seq![key][0] == key);
    }
}

} // verus!
