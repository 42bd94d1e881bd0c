//! The files through which the parties of a session exchange their records: what is saved where, and what is
//! loaded from where.
use crate::hex::encode;
use crate::hex::hex_text;
use crate::hex::lemma_hex_text_is_injective;
use crate::keys::CompressedPublicKey;
use crate::text::enclosed;
use crate::text::joined;
use crate::types::MemberMultisigSignature;
use crate::types::MultisigEncumberOutput;
use crate::types::MultisigLeaderPartyOutput;
use crate::types::MultisigMemberPartyOutput;
use crate::types::MultisigOutput;
use crate::types::MultisigPartyOutput;
use crate::types::TariAddress;
use vstd::prelude::*;

verus! {

/// A record to save.
pub struct FileToSave<T> {
    /// The path of the file.
    pub path: String,
    /// The record, which is saved as text.
    pub contents: T,
}

/// A file to load.
pub struct FileToLoad {
    /// The path of the file.
    pub path: String,
    /// The words of the failure if there is no such file. Where there are none, opening the file fails.
    pub missing: Option<String>,
}

/// The path of a session's file.
pub open spec fn session_path(session_id: Seq<char>) -> Seq<char> {
    "/wallet_data/multisig_output-"@ + session_id + ".json"@
}

/// The path of a party's file. A party has one file for the leader and one for itself.
pub open spec fn party_path(prefix: Seq<char>, session_id: Seq<char>, key: Seq<u8>) -> Seq<char> {
    "/wallet_data/multisig_party_output-"@ + prefix + "-"@ + session_id + "-"@ + hex_text(key) + ".json"@
}

/// The path of the file of a session's transactions.
pub open spec fn encumber_path(session_id: Seq<char>) -> Seq<char> {
    "/wallet_data/multisig_utxo_encumber_outputs-"@ + session_id + ".json"@
}

/// The path of the file of a party's signatures.
pub open spec fn signatures_path(session_id: Seq<char>, key: Seq<u8>) -> Seq<char> {
    "/wallet_data/multisig_member_signatures-"@ + session_id + "-"@ + hex_text(key) + ".json"@
}

fn session_file(session_id: &str) -> (path: String)
    ensures
        path@ == session_path(session_id@),
{
    enclosed("/wallet_data/multisig_output-", session_id, ".json")
}

fn party_file(prefix: &str, session_id: &str, key: &CompressedPublicKey) -> (path: String)
    ensures
        path@ == party_path(prefix@, session_id@, key@),
{
    let hex = encode(key);
    let start = enclosed("/wallet_data/multisig_party_output-", prefix, "-");
    let start = enclosed(start.as_str(), session_id, "-");
    enclosed(start.as_str(), hex.as_str(), ".json")
}

fn encumber_file(session_id: &str) -> (path: String)
    ensures
        path@ == encumber_path(session_id@),
{
    enclosed("/wallet_data/multisig_utxo_encumber_outputs-", session_id, ".json")
}

fn signatures_file(session_id: &str, key: &CompressedPublicKey) -> (path: String)
    ensures
        path@ == signatures_path(session_id@, key@),
{
    let hex = encode(key);
    let start = enclosed("/wallet_data/multisig_member_signatures-", session_id, "-");
    enclosed(start.as_str(), hex.as_str(), ".json")
}

/// Whether a file is the one that a session is saved in.
pub open spec fn saves_session(output: MultisigOutput, file: FileToSave<MultisigOutput>) -> bool {
    file.path@ == session_path(output.session_id@) && file.contents == output
}

/// Whether a file is the one that a session is loaded from. If it is not there, opening it fails.
pub open spec fn loads_session(session_id: Seq<char>, file: FileToLoad) -> bool {
    file.path@ == session_path(session_id) && file.missing is None
}

/// Saves a session.
pub fn save_multisig_output(multisig_output: MultisigOutput) -> (file: FileToSave<MultisigOutput>)
    ensures
        saves_session(multisig_output, file),
{
    let path = session_file(multisig_output.session_id.as_str());
    FileToSave { path, contents: multisig_output }
}

/// Loads a session.
pub fn load_multisig_output(session_id: &str) -> (file: FileToLoad)
    ensures
        loads_session(session_id@, file),
{
    FileToLoad { path: session_file(session_id), missing: None }
}

/// Loads a session, as `load_multisig_output` does.
pub fn read_multisig_output(session_id: &str) -> (file: FileToLoad)
    ensures
        loads_session(session_id@, file),
{
    load_multisig_output(session_id)
}

/// Whether files are those that a party's part of a session is saved in.
pub open spec fn saves_party(
    output: MultisigPartyOutput,
    files: (FileToSave<MultisigLeaderPartyOutput>, FileToSave<MultisigMemberPartyOutput>),
) -> bool {
    &&& files.0.path@ == party_path("leader"@, output.leader.session_id@, output.leader.member_public_key@)
    &&& files.0.contents == output.leader
    &&& files.1.path@ == party_path("member"@, output.member.session_id@, output.member.member_public_key@)
    &&& files.1.contents == output.member
}

/// Saves a party's part of a session: the leader's file, and then the party's own.
pub fn save_multisig_party_output(multisig_output: MultisigPartyOutput) -> (files: (
    FileToSave<MultisigLeaderPartyOutput>,
    FileToSave<MultisigMemberPartyOutput>,
))
    ensures
        saves_party(multisig_output, files),
{
    let leader = multisig_output.leader;
    let member = multisig_output.member;
    let leader_path = party_file("leader", leader.session_id.as_str(), &leader.member_public_key);
    let member_path = party_file("member", member.session_id.as_str(), &member.member_public_key);
    (FileToSave { path: leader_path, contents: leader }, FileToSave { path: member_path, contents: member })
}

/// Whether a failure has given words.
pub open spec fn has_words(missing: Option<String>, words: Seq<char>) -> bool {
    missing matches Some(text) && text@ == words
}

/// The words for a party's file that is not there.
pub open spec fn missing_party_words(prefix: Seq<char>, path: Seq<char>) -> Seq<char> {
    "Missing "@ + prefix + " party file: "@ + path
}

/// Whether a file is the one that a party's part of a session is loaded from.
pub open spec fn loads_party(
    prefix: Seq<char>,
    session_id: Seq<char>,
    pubkey: CompressedPublicKey,
    file: FileToLoad,
) -> bool {
    &&& file.path@ == party_path(prefix, session_id, pubkey@)
    &&& has_words(file.missing, missing_party_words(prefix, file.path@))
}

fn load_party_output(session_id: &str, pubkey: &CompressedPublicKey, prefix: &str) -> (file: FileToLoad)
    ensures
        loads_party(prefix@, session_id@, *pubkey, file),
{
    let path = party_file(prefix, session_id, pubkey);
    let start = enclosed("Missing ", prefix, " party file: ");
    let words = joined(start.as_str(), path.as_str());
    FileToLoad { path, missing: Some(words) }
}

/// Loads the leader's file of a party.
pub fn load_leader_party_output(session_id: &str, pubkey: &CompressedPublicKey) -> (file: FileToLoad)
    ensures
        loads_party("leader"@, session_id@, *pubkey, file),
{
    load_party_output(session_id, pubkey, "leader")
}

/// Loads a party's own file.
pub fn load_member_party_output(session_id: &str, pubkey: &CompressedPublicKey) -> (file: FileToLoad)
    ensures
        loads_party("member"@, session_id@, *pubkey, file),
{
    load_party_output(session_id, pubkey, "member")
}

/// Whether a file is the one that the transactions of a session are saved in.
pub open spec fn saves_transactions(
    session_id: Seq<char>,
    outputs: Vec<MultisigEncumberOutput>,
    file: FileToSave<Vec<MultisigEncumberOutput>>,
) -> bool {
    file.path@ == encumber_path(session_id) && file.contents == outputs
}

/// Whether a file is the one that the transactions of a session are loaded from.
pub open spec fn loads_transactions(session_id: Seq<char>, file: FileToLoad) -> bool {
    &&& file.path@ == encumber_path(session_id)
    &&& has_words(file.missing, "Missing multisig encumber outputs file: "@ + file.path@)
}

/// Saves the transactions of a session.
pub fn save_multisig_utxo_encumber(session_id: &str, outputs: Vec<MultisigEncumberOutput>) -> (file: FileToSave<
    Vec<MultisigEncumberOutput>,
>)
    ensures
        saves_transactions(session_id@, outputs, file),
{
    FileToSave { path: encumber_file(session_id), contents: outputs }
}

/// Loads the transactions of a session.
pub fn load_multisig_utxo_encumber(session_id: &str) -> (file: FileToLoad)
    ensures
        loads_transactions(session_id@, file),
{
    let path = encumber_file(session_id);
    let words = joined("Missing multisig encumber outputs file: ", path.as_str());
    FileToLoad { path, missing: Some(words) }
}

/// Whether a file is the one that the signatures of a party are saved in.
pub open spec fn saves_signatures(
    session_id: Seq<char>,
    signatures: Vec<MemberMultisigSignature>,
    own_address: TariAddress,
    file: FileToSave<Vec<MemberMultisigSignature>>,
) -> bool {
    file.path@ == signatures_path(session_id, own_address.public_spend_key@) && file.contents == signatures
}

/// Whether a file is the one that the signatures of a party are loaded from.
pub open spec fn loads_signatures(session_id: Seq<char>, key: CompressedPublicKey, file: FileToLoad) -> bool {
    &&& file.path@ == signatures_path(session_id, key@)
    &&& has_words(file.missing, "Missing multisig member signatures file: "@ + file.path@)
}

/// Saves the signatures of a party, under its spend key.
pub fn save_multisig_member_signatures(
    session_id: &str,
    signatures: Vec<MemberMultisigSignature>,
    own_address: &TariAddress,
) -> (file: FileToSave<Vec<MemberMultisigSignature>>)
    ensures
        saves_signatures(session_id@, signatures, *own_address, file),
{
    FileToSave { path: signatures_file(session_id, &own_address.public_spend_key), contents: signatures }
}

/// Loads the signatures of a party.
pub fn load_multisig_member_signatures(session_id: &str, member_public_key: &CompressedPublicKey) -> (file:
    FileToLoad)
    ensures
        loads_signatures(session_id@, *member_public_key, file),
{
    let path = signatures_file(session_id, member_public_key);
    let words = joined("Missing multisig member signatures file: ", path.as_str());
    FileToLoad { path, missing: Some(words) }
}

proof fn lemma_same_start(a: Seq<char>, b: Seq<char>, start: Seq<char>, c: Seq<char>, d: Seq<char>)
    requires
        a == start + c,
        b == start + d,
        a == b,
    ensures
        c == d,
{
    assert(a.skip(start.len() as int) =~= c);
    assert(b.skip(start.len() as int) =~= d);
}

proof fn lemma_same_end(a: Seq<char>, b: Seq<char>, c: Seq<char>, d: Seq<char>, end: Seq<char>, other_end: Seq<char>)
    requires
        a == c + end,
        b == d + other_end,
        end.len() == other_end.len(),
        a == b,
    ensures
        c == d,
        end == other_end,
{
    assert(a.len() == c.len() + end.len() && b.len() == d.len() + end.len());
    assert(a.take(c.len() as int) =~= c);
    assert(b.take(d.len() as int) =~= d);
    assert(a.skip(c.len() as int) =~= end);
    assert(b.skip(d.len() as int) =~= other_end);
}

/// Two sessions have two files.
pub proof fn law_sessions_have_their_own_files(a: Seq<char>, b: Seq<char>)
    ensures
        session_path(a) == session_path(b) ==> a == b,
        encumber_path(a) == encumber_path(b) ==> a == b,
{
    if session_path(a) == session_path(b) {
        let start = "/wallet_data/multisig_output-"@;
        lemma_same_end(session_path(a), session_path(b), start + a, start + b, ".json"@, ".json"@);
        lemma_same_start(start + a, start + b, start, a, b);
    }
    if encumber_path(a) == encumber_path(b) {
        let start = "/wallet_data/multisig_utxo_encumber_outputs-"@;
        lemma_same_end(encumber_path(a), encumber_path(b), start + a, start + b, ".json"@, ".json"@);
        lemma_same_start(start + a, start + b, start, a, b);
    }
}

/// Two parties of a session, or two sessions of a party, have two files of signatures.
pub proof fn law_parties_have_their_own_signature_files(
    session_a: Seq<char>,
    key_a: CompressedPublicKey,
    session_b: Seq<char>,
    key_b: CompressedPublicKey,
)
    requires
        signatures_path(session_a, key_a@) == signatures_path(session_b, key_b@),
    ensures
        session_a == session_b,
        key_a@ == key_b@,
{
    let start = "/wallet_data/multisig_member_signatures-"@;
    let a = start + session_a + "-"@;
    let b = start + session_b + "-"@;
    lemma_same_end(
        signatures_path(session_a, key_a@),
        signatures_path(session_b, key_b@),
        a + hex_text(key_a@),
        b + hex_text(key_b@),
        ".json"@,
        ".json"@,
    );
    lemma_same_end(a + hex_text(key_a@), b + hex_text(key_b@), a, b, hex_text(key_a@), hex_text(key_b@));
    lemma_hex_text_is_injective(key_a@, key_b@);
    lemma_same_end(a, b, start + session_a, start + session_b, "-"@, "-"@);
    lemma_same_start(start + session_a, start + session_b, start, session_a, session_b);
}

/// Two parties of a session, or two sessions of a party, have two files for the leader and two for themselves, and
/// the leader's file is never the party's own.
pub proof fn law_parties_have_their_own_files(
    leader_a: bool,
    session_a: Seq<char>,
    key_a: CompressedPublicKey,
    leader_b: bool,
    session_b: Seq<char>,
    key_b: CompressedPublicKey,
)
    requires
        party_path(party_prefix(leader_a), session_a, key_a@) == party_path(
            party_prefix(leader_b),
            session_b,
            key_b@,
        ),
    ensures
        leader_a == leader_b,
        session_a == session_b,
        key_a@ == key_b@,
{
    reveal_strlit("leader");
    reveal_strlit("member");
    let start = "/wallet_data/multisig_party_output-"@;
    let prefix_a = party_prefix(leader_a);
    let prefix_b = party_prefix(leader_b);
    let a = start + prefix_a + "-"@ + session_a + "-"@;
    let b = start + prefix_b + "-"@ + session_b + "-"@;
    lemma_same_end(
        party_path(prefix_a, session_a, key_a@),
        party_path(prefix_b, session_b, key_b@),
        a + hex_text(key_a@),
        b + hex_text(key_b@),
        ".json"@,
        ".json"@,
    );
    lemma_same_end(a + hex_text(key_a@), b + hex_text(key_b@), a, b, hex_text(key_a@), hex_text(key_b@));
    lemma_hex_text_is_injective(key_a@, key_b@);
    let c = start + prefix_a + "-"@ + session_a;
    let d = start + prefix_b + "-"@ + session_b;
    lemma_same_end(a, b, c, d, "-"@, "-"@);
    let rest_a = prefix_a + ("-"@ + session_a);
    let rest_b = prefix_b + ("-"@ + session_b);
    assert(c =~= start + rest_a);
    assert(d =~= start + rest_b);
    lemma_same_start(c, d, start, rest_a, rest_b);
    assert(rest_a.take(6) =~= prefix_a);
    assert(rest_b.take(6) =~= prefix_b);
    assert("leader"@[0] != "member"@[0]);
    lemma_same_start(rest_a, rest_b, prefix_a, "-"@ + session_a, "-"@ + session_b);
    lemma_same_start("-"@ + session_a, "-"@ + session_b, "-"@, session_a, session_b);
}

/// What a party's file is called: the leader's, or the party's own.
pub open spec fn party_prefix(leader: bool) -> Seq<char> {
    if leader {
        "leader"@
    } else {
        "member"@
    }
}

/// Files of different kinds are never the same.
pub proof fn law_kinds_of_files_differ(
    session: Seq<char>,
    other_session: Seq<char>,
    key: Seq<u8>,
    other_key: Seq<u8>,
    prefix: Seq<char>,
)
    ensures
        session_path(session) != encumber_path(other_session),
        session_path(session) != party_path(prefix, other_session, key),
        session_path(session) != signatures_path(other_session, key),
        encumber_path(session) != party_path(prefix, other_session, key),
        encumber_path(session) != signatures_path(other_session, key),
        party_path(prefix, session, key) != signatures_path(other_session, other_key),
{
    reveal_strlit("/wallet_data/multisig_output-");
    reveal_strlit("/wallet_data/multisig_party_output-");
    reveal_strlit("/wallet_data/multisig_utxo_encumber_outputs-");
    reveal_strlit("/wallet_data/multisig_member_signatures-");
    assert(session_path(session)[22] == 'o' && session_path(other_session)[22] == 'o');
    assert(encumber_path(session)[22] == 'u' && encumber_path(other_session)[22] == 'u');
    assert(party_path(prefix, other_session, key)[22] == 'p');
    assert(party_path(prefix, session, key)[22] == 'p');
    assert(signatures_path(other_session, key)[22] == 'm');
    assert(signatures_path(other_session, other_key)[22] == 'm');
}

/// A session is loaded from the file that it was saved in exactly where it is asked for by its own name, and the file holds
/// the session.
pub proof fn law_session_is_found_again(
    output: MultisigOutput,
    saved: FileToSave<MultisigOutput>,
    session_id: Seq<char>,
    loaded: FileToLoad,
)
    requires
        saves_session(output, saved),
        loads_session(session_id, loaded),
    ensures
        loaded.path@ == saved.path@ <==> session_id == output.session_id@,
        saved.contents == output,
{
    law_sessions_have_their_own_files(session_id, output.session_id@);
}

/// The transactions of a session are loaded from the file that they were saved in exactly where they are asked for by the
/// same session, and the file holds them.
pub proof fn law_transactions_are_found_again(
    saved_id: Seq<char>,
    outputs: Vec<MultisigEncumberOutput>,
    saved: FileToSave<Vec<MultisigEncumberOutput>>,
    loaded_id: Seq<char>,
    loaded: FileToLoad,
)
    requires
        saves_transactions(saved_id, outputs, saved),
        loads_transactions(loaded_id, loaded),
    ensures
        loaded.path@ == saved.path@ <==> loaded_id == saved_id,
        saved.contents == outputs,
{
    law_sessions_have_their_own_files(loaded_id, saved_id);
}

/// The signatures of a party are loaded from the file that they were saved in exactly where they are asked for by the same
/// session and by the party's spend key, and the file holds them.
pub proof fn law_signatures_are_found_again(
    saved_id: Seq<char>,
    signatures: Vec<MemberMultisigSignature>,
    own_address: TariAddress,
    saved: FileToSave<Vec<MemberMultisigSignature>>,
    loaded_id: Seq<char>,
    key: CompressedPublicKey,
    loaded: FileToLoad,
)
    requires
        saves_signatures(saved_id, signatures, own_address, saved),
        loads_signatures(loaded_id, key, loaded),
    ensures
        loaded.path@ == saved.path@ <==> loaded_id == saved_id && key@ == own_address.public_spend_key@,
        saved.contents == signatures,
{
    if loaded.path@ == saved.path@ {
        law_parties_have_their_own_signature_files(loaded_id, key, saved_id, own_address.public_spend_key);
    }
}

/// A party's part of a session is found again: the leader's file and the party's own are each loaded exactly where they
/// are asked for by the same session and the party's key, neither is ever taken for the other, and they hold the two
/// halves of the part.
pub proof fn law_party_part_is_found_again(
    output: MultisigPartyOutput,
    saved: (FileToSave<MultisigLeaderPartyOutput>, FileToSave<MultisigMemberPartyOutput>),
    session_id: Seq<char>,
    key: CompressedPublicKey,
    leader: FileToLoad,
    member: FileToLoad,
)
    requires
        saves_party(output, saved),
        loads_party("leader"@, session_id, key, leader),
        loads_party("member"@, session_id, key, member),
    ensures
        leader.path@ == saved.0.path@ <==> session_id == output.leader.session_id@ && key@
            == output.leader.member_public_key@,
        member.path@ == saved.1.path@ <==> session_id == output.member.session_id@ && key@
            == output.member.member_public_key@,
        leader.path@ != saved.1.path@,
        member.path@ != saved.0.path@,
        saved.0.contents == output.leader,
        saved.1.contents == output.member,
{
    let given = output.leader;
    let kept = output.member;
    if leader.path@ == saved.0.path@ {
        law_parties_have_their_own_files(true, session_id, key, true, given.session_id@, given.member_public_key);
    }
    if member.path@ == saved.1.path@ {
        law_parties_have_their_own_files(false, session_id, key, false, kept.session_id@, kept.member_public_key);
    }
    if leader.path@ == saved.1.path@ {
        law_parties_have_their_own_files(true, session_id, key, false, kept.session_id@, kept.member_public_key);
    }
    if member.path@ == saved.0.path@ {
        law_parties_have_their_own_files(false, session_id, key, true, given.session_id@, given.member_public_key);
    }
}

/// Whoever misses a file is told its path: the words end with it. A missing session has no words.
pub proof fn law_missing_files_are_named(
    session_id: Seq<char>,
    key: CompressedPublicKey,
    prefix: Seq<char>,
    session: FileToLoad,
    party: FileToLoad,
    transactions: FileToLoad,
    signatures: FileToLoad,
)
    requires
        loads_session(session_id, session),
        loads_party(prefix, session_id, key, party),
        loads_transactions(session_id, transactions),
        loads_signatures(session_id, key, signatures),
    ensures
        session.missing is None,
        party.missing matches Some(words) && words@.len() > party.path@.len() && words@.skip(
            words@.len() - party.path@.len(),
        ) == party.path@,
        transactions.missing matches Some(words) && words@.len() > transactions.path@.len() && words@.skip(
            words@.len() - transactions.path@.len(),
        ) == transactions.path@,
        signatures.missing matches Some(words) && words@.len() > signatures.path@.len() && words@.skip(
            words@.len() - signatures.path@.len(),
        ) == signatures.path@,
{
    reveal_strlit("Missing ");
    reveal_strlit(" party file: ");
    reveal_strlit("Missing multisig encumber outputs file: ");
    reveal_strlit("Missing multisig member signatures file: ");
    let party_words = party.missing->Some_0@;
    let transactions_words = transactions.missing->Some_0@;
    let signatures_words = signatures.missing->Some_0@;
    assert(party_words.skip(party_words.len() - party.path@.len()) =~= party.path@);
    assert(transactions_words.skip(transactions_words.len() - transactions.path@.len()) =~= transactions.path@);
    assert(signatures_words.skip(signatures_words.len() - signatures.path@.len()) =~= signatures.path@);
}

} // verus!
