//! Keys that are derived from other keys, and what they open.
use crate::keys::canonical_scalar;
use crate::keys::valid_point;
use crate::keys::CompressedCommitment;
use crate::keys::PrivateKey;
use crate::keys::RistrettoPublicKey;
use tari_common_types::types::CommsDHKE;
use tari_common_types::types::CompressedCommitment as TariCompressedCommitment;
use tari_common_types::types::CompressedPublicKey as TariCompressedPublicKey;
use tari_common_types::types::PrivateKey as TariPrivateKey;
use tari_transaction_components::crypto_factories::CryptoFactories;
use tari_transaction_components::transaction_components::one_sided::public_key_to_output_encryption_key;
use tari_transaction_components::transaction_components::one_sided::shared_secret_to_output_encryption_key;
use tari_transaction_components::transaction_components::one_sided::shared_secret_to_output_spending_key;
use tari_transaction_components::transaction_components::EncryptedData;
use tari_transaction_components::transaction_components::TransactionOutput;
use tari_utilities::ByteArray;
use vstd::prelude::*;

verus! {

/// The bytes of the encryption key that belongs to a public key.
pub uninterp spec fn public_key_encryption_key(key: Seq<u8>) -> Seq<u8>;

/// The bytes of the encryption key that belongs to a shared secret.
pub uninterp spec fn shared_secret_encryption_key(secret: Seq<u8>) -> Seq<u8>;

/// The bytes of the spending key that belongs to a shared secret.
pub uninterp spec fn shared_secret_spending_key(secret: Seq<u8>) -> Seq<u8>;

/// What encrypted data holds when it is opened with a key for a commitment: the value, the bytes of the mask
/// and the JSON text of the payment id, or nothing.
pub uninterp spec fn decryption(key: Seq<u8>, commitment: Seq<u8>, data: Seq<u8>) -> Option<
    (u64, Seq<u8>, Seq<u8>),
>;

/// Whether a commitment is one to a value with a mask, or the words of the error where that cannot be told.
pub uninterp spec fn mask_check(commitment: Seq<u8>, mask: Seq<u8>, value: u64) -> Result<bool, Seq<char>>;

/// Calls `public_key_to_output_encryption_key` of `tari_transaction_components`, which hashes the key to a
/// scalar. The result is named `public_key_encryption_key`; it is a canonical scalar, and the call never fails.
#[verifier::external_body]
fn hash_public_key(key: &[u8; 32]) -> (scalar: [u8; 32])
    ensures
        scalar@ == public_key_encryption_key(key@),
        canonical_scalar(scalar@),
{
    let scalar = public_key_to_output_encryption_key(&TariCompressedPublicKey::new(key)).expect("a full hash");
    scalar.as_bytes().try_into().expect("a scalar has 32 bytes")
}

/// Calls `shared_secret_to_output_encryption_key` of `tari_transaction_components`, which hashes the secret to
/// a scalar. The result is named `shared_secret_encryption_key`; it is a canonical scalar, and the call never
/// fails.
#[verifier::external_body]
fn hash_secret_for_encryption(secret: &[u8; 32]) -> (scalar: [u8; 32])
    requires
        valid_point(secret@),
    ensures
        scalar@ == shared_secret_encryption_key(secret@),
        canonical_scalar(scalar@),
{
    let secret = CommsDHKE::from_canonical_bytes(secret).expect("a point");
    let scalar = shared_secret_to_output_encryption_key(&secret).expect("a full hash");
    scalar.as_bytes().try_into().expect("a scalar has 32 bytes")
}

/// Calls `shared_secret_to_output_spending_key` of `tari_transaction_components`, which hashes the secret to a
/// scalar. The result is named `shared_secret_spending_key`; it is a canonical scalar, and the call never fails.
#[verifier::external_body]
fn hash_secret_for_spending(secret: &[u8; 32]) -> (scalar: [u8; 32])
    requires
        valid_point(secret@),
    ensures
        scalar@ == shared_secret_spending_key(secret@),
        canonical_scalar(scalar@),
{
    let secret = CommsDHKE::from_canonical_bytes(secret).expect("a point");
    let scalar = shared_secret_to_output_spending_key(&secret).expect("a full hash");
    scalar.as_bytes().try_into().expect("a scalar has 32 bytes")
}

/// The value, mask and payment id that a call of `open_data` gives.
spec fn opened_data(r: Option<(u64, [u8; 32], Vec<u8>)>) -> Option<(u64, Seq<u8>, Seq<u8>)> {
    match r {
        Some(secrets) => Some((secrets.0, secrets.1@, secrets.2@)),
        None => None,
    }
}

/// Calls `EncryptedData::from_bytes` and `EncryptedData::decrypt_data` of `tari_transaction_components`, and writes
/// the payment id as the JSON text that `serde_json` gives it. The result is named `decryption`, where a failure
/// of either of the first two is nothing. The mask is a canonical scalar.
#[verifier::external_body]
fn open_data(key: &[u8; 32], commitment: &[u8; 32], data: &[u8]) -> (r: Option<(u64, [u8; 32], Vec<u8>)>)
    requires
        canonical_scalar(key@),
    ensures
        opened_data(r) == decryption(key@, commitment@, data@),
        r matches Some(secrets) ==> canonical_scalar(secrets.1@),
{
    let key = TariPrivateKey::from_canonical_bytes(key).expect("a scalar");
    let commitment = TariCompressedCommitment::from_canonical_bytes(commitment).expect("32 bytes");
    let data = EncryptedData::from_bytes(data).ok()?;
    let (value, mask, memo) = EncryptedData::decrypt_data(&key, &commitment, &data).ok()?;
    let payment_id = serde_json::to_vec(&memo).expect("a payment id has a JSON text");
    Some((value.as_u64(), mask.as_bytes().try_into().expect("a scalar has 32 bytes"), payment_id))
}

/// The answer or the words that a call of `check_mask` gives.
spec fn checked_mask(r: Result<bool, String>) -> Result<bool, Seq<char>> {
    match r {
        Ok(opens) => Ok(opens),
        Err(words) => Err(words@),
    }
}

/// Calls `TransactionOutput::verify_mask` of `tari_transaction_components` with the default range proof
/// service. The method reads no other field of the output than its commitment. The result is named
/// `mask_check`; the error is given as the text that its `Display` prints.
#[verifier::external_body]
fn check_mask(commitment: &[u8; 32], mask: &[u8; 32], value: u64) -> (r: Result<bool, String>)
    requires
        canonical_scalar(mask@),
    ensures
        checked_mask(r) == mask_check(commitment@, mask@, value),
{
    let mask = TariPrivateKey::from_canonical_bytes(mask).expect("a scalar");
    let commitment = TariCompressedCommitment::from_canonical_bytes(commitment).expect("32 bytes");
    let output = TransactionOutput { commitment, ..Default::default() };
    output.verify_mask(&CryptoFactories::default().range_proof, &mask, value).map_err(|e| e.to_string())
}

/// The encryption key that belongs to a public key.
pub fn encryption_key_of_public_key(key: &RistrettoPublicKey) -> (scalar: PrivateKey)
    ensures
        scalar@ == public_key_encryption_key(key@),
{
    let bytes = key.to_compressed();
    PrivateKey::from_scalar(hash_public_key(&bytes))
}

/// The encryption key that belongs to a shared secret.
pub fn encryption_key_of_secret(secret: &RistrettoPublicKey) -> (scalar: PrivateKey)
    ensures
        scalar@ == shared_secret_encryption_key(secret@),
{
    let bytes = secret.to_compressed();
    PrivateKey::from_scalar(hash_secret_for_encryption(&bytes))
}

/// The spending key that belongs to a shared secret.
pub fn spending_key_of_secret(secret: &RistrettoPublicKey) -> (scalar: PrivateKey)
    ensures
        scalar@ == shared_secret_spending_key(secret@),
{
    let bytes = secret.to_compressed();
    PrivateKey::from_scalar(hash_secret_for_spending(&bytes))
}

/// What encrypted data of an output holds.
pub struct OutputSecrets {
    /// The value in micro Minotari.
    pub value: u64,
    /// The mask of the commitment.
    pub mask: PrivateKey,
    /// The payment id, as JSON text.
    pub payment_id: Vec<u8>,
}

impl View for OutputSecrets {
    type V = (u64, Seq<u8>, Seq<u8>);

    open spec fn view(&self) -> (u64, Seq<u8>, Seq<u8>) {
        (self.value, self.mask@, self.payment_id@)
    }
}

/// Opens the encrypted data of an output.
pub fn decrypt_data(key: &PrivateKey, commitment: &CompressedCommitment, data: &[u8]) -> (r: Option<OutputSecrets>)
    ensures
        match r {
            Some(secrets) => decryption(key@, commitment@, data@) == Some(secrets@),
            None => decryption(key@, commitment@, data@) is None,
        },
{
    let bytes = key.to_bytes();
    match open_data(&bytes, commitment, data) {
        Some((value, mask, payment_id)) => {
            Some(OutputSecrets { value, mask: PrivateKey::from_scalar(mask), payment_id })
        },
        None => None,
    }
}

/// Tells whether a commitment is one to a value with a mask.
pub fn verify_mask(commitment: &CompressedCommitment, mask: &PrivateKey, value: u64) -> (r: Result<bool, String>)
    ensures
        match r {
            Ok(opens) => mask_check(commitment@, mask@, value) == Ok::<bool, Seq<char>>(opens),
            Err(words) => mask_check(commitment@, mask@, value) == Err::<bool, Seq<char>>(words@),
        },
{
    let bytes = mask.to_bytes();
    check_mask(commitment, &bytes, value)
}

} // verus!
