//! Keys and commitments of the ristretto group, as the 32 bytes that stand for them.
use crate::error::ByteArrayError;
use tari_common_types::types::CompressedPublicKey as TariCompressedPublicKey;
use tari_common_types::types::PrivateKey as TariPrivateKey;
use tari_common_types::types::UncompressedPublicKey;
use tari_utilities::ByteArray;
use vstd::prelude::*;

verus! {

/// A public key in compressed form. It need not be a point of the group.
pub type CompressedPublicKey = [u8; 32];

/// A commitment in compressed form. It need not be a point of the group.
pub type CompressedCommitment = [u8; 32];

/// The hash of an output.
pub type FixedHash = [u8; 32];

/// Whether two compressed keys, commitments or hashes hold the same bytes.
pub fn same_bytes(a: &[u8; 32], b: &[u8; 32]) -> (same: bool)
    ensures
        same == (a@ == b@),
        same == (*a == *b),
{
    let mut i: usize = 0;
    while i < 32
        invariant
            i <= 32,
            forall|j: int| 0 <= j < i ==> a@[j] == b@[j],
        decreases 32 - i,
    {
        if a[i] != b[i] {
            return false;
        }
        i += 1;
    }
    assert(a@ =~= b@);
    assert(*a =~= *b);
    true
}

/// The number that bytes stand for, the lowest byte first.
pub open spec fn le_value(bytes: Seq<u8>) -> nat
    decreases bytes.len(),
{
    if bytes.len() == 0 {
        0
    } else {
        bytes[0] as nat + 256 * le_value(bytes.skip(1))
    }
}

/// The order of the ristretto group.
pub open spec fn group_order() -> nat {
    7237005577332262213973186563042994240857116359379907606001950938285454250989nat
}

/// Thirty-two zero bytes.
pub open spec fn zero_bytes() -> Seq<u8> {
    Seq::new(32, |i: int| 0u8)
}

/// Whether 32 bytes are the encoding of a point of the ristretto group.
pub uninterp spec fn valid_point(bytes: Seq<u8>) -> bool;

/// The encoding of the sum of two points, given by their encodings.
pub uninterp spec fn point_add(a: Seq<u8>, b: Seq<u8>) -> Seq<u8>;

/// Whether there is a point that adds up with a given one to the given identity.
pub open spec fn has_negative(a: Seq<u8>, zero: Seq<u8>) -> bool {
    exists|b: Seq<u8>| valid_point(b) && #[trigger] point_add(a, b) == zero
}

/// Whether the points are a commutative group under `point_add`, with the given point as the one that adds nothing.
#[verifier::opaque]
pub open spec fn is_neutral(zero: Seq<u8>) -> bool {
    &&& valid_point(zero)
    &&& forall|a: Seq<u8>| valid_point(a) ==> #[trigger] point_add(zero, a) == a
    &&& forall|a: Seq<u8>, b: Seq<u8>|
        valid_point(a) && valid_point(b) ==> valid_point(#[trigger] point_add(a, b)) && point_add(a, b) == point_add(
            b,
            a,
        )
    &&& forall|a: Seq<u8>, b: Seq<u8>, c: Seq<u8>|
        valid_point(a) && valid_point(b) && valid_point(c) ==> #[trigger] point_add(point_add(a, b), c) == point_add(
            a,
            point_add(b, c),
        )
    &&& forall|a: Seq<u8>| valid_point(a) ==> #[trigger] has_negative(a, zero)
}

/// Whether an error says that 32 bytes are no point.
pub open spec fn is_point_error(e: ByteArrayError) -> bool {
    match e {
        ByteArrayError::ConversionError { reason } => reason@ == "Invalid compressed Ristretto point"@,
        ByteArrayError::IncorrectLength => false,
    }
}

/// Calls `CompressedKey::to_public_key` of `tari_crypto`, which decodes a point. Which bytes it accepts is
/// named `valid_point`; the point has the bytes that it was decoded from.
#[verifier::external_body]
fn decompress(key: &[u8; 32]) -> (r: Result<[u8; 32], ByteArrayError>)
    ensures
        r is Ok <==> valid_point(key@),
        r matches Ok(bytes) ==> bytes@ == key@,
        r matches Err(e) ==> is_point_error(e),
{
    match TariCompressedPublicKey::new(key).to_public_key() {
        Ok(point) => Ok(point.as_bytes().try_into().expect("a point has 32 bytes")),
        Err(tari_utilities::ByteArrayError::ConversionError { reason }) => {
            Err(ByteArrayError::ConversionError { reason })
        },
        Err(tari_utilities::ByteArrayError::IncorrectLength {}) => Err(ByteArrayError::IncorrectLength),
    }
}

/// Calls `RistrettoPublicKey::default` of `tari_crypto`, the identity of the group, whose encoding is all zeros. The
/// ristretto group is commutative, and each of its points has one encoding: the identity adds nothing to a point,
/// neither the order nor the grouping of points changes the encoding of their sum, and every point has a negative,
/// with which it adds up to the identity.
#[verifier::external_body]
fn identity_point() -> (bytes: [u8; 32])
    ensures
        valid_point(bytes@),
        bytes@ == zero_bytes(),
        is_neutral(bytes@),
{
    UncompressedPublicKey::default().as_bytes().try_into().expect("a point has 32 bytes")
}

/// Calls the addition of `RistrettoPublicKey` of `tari_crypto`. The encoding of the sum is named `point_add`;
/// the sum is a point.
#[verifier::external_body]
fn point_plus(a: &[u8; 32], b: &[u8; 32]) -> (sum: [u8; 32])
    requires
        valid_point(a@),
        valid_point(b@),
    ensures
        sum@ == point_add(a@, b@),
        valid_point(sum@),
{
    let left = UncompressedPublicKey::from_canonical_bytes(a).expect("a point");
    let right = UncompressedPublicKey::from_canonical_bytes(b).expect("a point");
    (&left + &right).as_bytes().try_into().expect("a point has 32 bytes")
}

/// A point of the ristretto group.
#[derive(Clone, Copy)]
pub struct RistrettoPublicKey {
    bytes: [u8; 32],
}

impl View for RistrettoPublicKey {
    type V = Seq<u8>;

    closed spec fn view(&self) -> Seq<u8> {
        self.bytes@
    }
}

impl RistrettoPublicKey {
    #[verifier::type_invariant]
    closed spec fn is_point(self) -> bool {
        valid_point(self.bytes@)
    }

    /// The identity of the group.
    pub fn identity() -> (point: Self)
        ensures
            point@ == zero_bytes(),
            is_neutral(point@),
    {
        RistrettoPublicKey { bytes: identity_point() }
    }

    /// Decodes a compressed key.
    pub fn from_compressed(key: &CompressedPublicKey) -> (r: Result<Self, ByteArrayError>)
        ensures
            r is Ok <==> valid_point(key@),
            r matches Ok(point) ==> point@ == key@,
            r matches Err(e) ==> is_point_error(e),
    {
        match decompress(key) {
            Ok(bytes) => Ok(RistrettoPublicKey { bytes }),
            Err(e) => Err(e),
        }
    }

    /// The compressed form of the point.
    pub fn to_compressed(&self) -> (key: CompressedPublicKey)
        ensures
            key@ == self@,
            valid_point(key@),
    {
        proof {
            use_type_invariant(self);
        }
        self.bytes
    }

    /// Adds two points.
    pub fn plus(&self, other: &Self) -> (sum: Self)
        ensures
            sum@ == point_add(self@, other@),
    {
        proof {
            use_type_invariant(self);
            use_type_invariant(other);
        }
        RistrettoPublicKey { bytes: point_plus(&self.bytes, &other.bytes) }
    }
}

/// The sum of two points is a point, and the same in either order.
pub proof fn lemma_points_commute(a: Seq<u8>, b: Seq<u8>)
    requires
        is_neutral(zero_bytes()),
        valid_point(a),
        valid_point(b),
    ensures
        valid_point(point_add(a, b)),
        point_add(a, b) == point_add(b, a),
{
    reveal(is_neutral);
}

/// Three points have one sum, however they are grouped.
pub proof fn lemma_points_regroup(a: Seq<u8>, b: Seq<u8>, c: Seq<u8>)
    requires
        is_neutral(zero_bytes()),
        valid_point(a),
        valid_point(b),
        valid_point(c),
    ensures
        point_add(point_add(a, b), c) == point_add(a, point_add(b, c)),
{
    reveal(is_neutral);
}

/// Two points are the same if they are so with a third one added.
pub proof fn lemma_points_cancel(a: Seq<u8>, b: Seq<u8>, c: Seq<u8>)
    requires
        is_neutral(zero_bytes()),
        valid_point(a),
        valid_point(b),
        valid_point(c),
        point_add(a, c) == point_add(b, c),
    ensures
        a == b,
{
    assert(has_negative(c, zero_bytes())) by {
        reveal(is_neutral);
    }
    let d = choose|d: Seq<u8>| valid_point(d) && #[trigger] point_add(c, d) == zero_bytes();
    lemma_points_regroup(a, c, d);
    lemma_points_regroup(b, c, d);
    lemma_identity_adds_nothing(a);
    lemma_identity_adds_nothing(b);
}

/// The identity is a point, and adds nothing.
pub proof fn lemma_identity_adds_nothing(a: Seq<u8>)
    requires
        is_neutral(zero_bytes()),
        valid_point(a),
    ensures
        valid_point(zero_bytes()),
        point_add(zero_bytes(), a) == a,
        point_add(a, zero_bytes()) == a,
{
    reveal(is_neutral);
}

/// Whether bytes are the canonical encoding of a scalar of the group.
pub open spec fn canonical_scalar(bytes: Seq<u8>) -> bool {
    bytes.len() == 32 && le_value(bytes) < group_order()
}

/// The error of decoding bytes that are no canonical scalar.
pub open spec fn is_scalar_error(bytes: Seq<u8>, e: ByteArrayError) -> bool {
    match e {
        ByteArrayError::ConversionError { reason } => {
            bytes.len() == 32 && reason@ == "Invalid canonical scalar byte array"@
        },
        ByteArrayError::IncorrectLength => bytes.len() != 32,
    }
}

/// Calls `RistrettoSecretKey::from_canonical_bytes` of `tari_crypto`, which accepts 32 bytes whose value, the
/// lowest byte first, is below the order of the group. The scalar has those bytes.
#[verifier::external_body]
fn decode_scalar(bytes: &[u8]) -> (r: Result<[u8; 32], ByteArrayError>)
    ensures
        r is Ok <==> canonical_scalar(bytes@),
        r matches Ok(scalar) ==> scalar@ == bytes@,
        r matches Err(e) ==> is_scalar_error(bytes@, e),
{
    match TariPrivateKey::from_canonical_bytes(bytes) {
        Ok(scalar) => Ok(scalar.as_bytes().try_into().expect("a scalar has 32 bytes")),
        Err(tari_utilities::ByteArrayError::ConversionError { reason }) => {
            Err(ByteArrayError::ConversionError { reason })
        },
        Err(tari_utilities::ByteArrayError::IncorrectLength {}) => Err(ByteArrayError::IncorrectLength),
    }
}

/// Calls `RistrettoSecretKey::default` of `tari_crypto`, the scalar zero.
#[verifier::external_body]
fn zero_scalar() -> (bytes: [u8; 32])
    ensures
        canonical_scalar(bytes@),
        bytes@ == zero_bytes(),
{
    TariPrivateKey::default().as_bytes().try_into().expect("a scalar has 32 bytes")
}

/// Calls the addition of `RistrettoSecretKey` of `tari_crypto`, which adds modulo the order of the group.
#[verifier::external_body]
fn scalar_plus(a: &[u8; 32], b: &[u8; 32]) -> (sum: [u8; 32])
    requires
        canonical_scalar(a@),
        canonical_scalar(b@),
    ensures
        le_value(sum@) == (le_value(a@) + le_value(b@)) % group_order(),
{
    let left = TariPrivateKey::from_canonical_bytes(a).expect("a scalar");
    let right = TariPrivateKey::from_canonical_bytes(b).expect("a scalar");
    (&left + &right).as_bytes().try_into().expect("a scalar has 32 bytes")
}

/// A scalar of the ristretto group.
#[derive(Clone, Copy)]
pub struct PrivateKey {
    bytes: [u8; 32],
}

impl View for PrivateKey {
    type V = Seq<u8>;

    closed spec fn view(&self) -> Seq<u8> {
        self.bytes@
    }
}

impl PrivateKey {
    #[verifier::type_invariant]
    closed spec fn is_scalar(self) -> bool {
        canonical_scalar(self.bytes@)
    }

    /// The number that the key stands for.
    pub open spec fn value(self) -> nat {
        le_value(self@)
    }

    /// The key of value zero.
    pub fn zero() -> (key: Self)
        ensures
            key@ == zero_bytes(),
    {
        PrivateKey { bytes: zero_scalar() }
    }

    /// Decodes a key.
    pub fn from_canonical_bytes(bytes: &[u8]) -> (r: Result<Self, ByteArrayError>)
        ensures
            r is Ok <==> canonical_scalar(bytes@),
            r matches Ok(key) ==> key@ == bytes@,
            r matches Err(e) ==> is_scalar_error(bytes@, e),
    {
        match decode_scalar(bytes) {
            Ok(scalar) => Ok(PrivateKey { bytes: scalar }),
            Err(e) => Err(e),
        }
    }

    /// The key of a canonical scalar.
    pub(crate) fn from_scalar(bytes: [u8; 32]) -> (key: Self)
        requires
            canonical_scalar(bytes@),
        ensures
            key@ == bytes@,
    {
        PrivateKey { bytes }
    }

    /// The bytes of the key.
    pub fn to_bytes(&self) -> (bytes: [u8; 32])
        ensures
            bytes@ == self@,
            canonical_scalar(bytes@),
    {
        proof {
            use_type_invariant(self);
        }
        self.bytes
    }

    /// Adds two keys.
    pub fn plus(&self, other: &Self) -> (sum: Self)
        ensures
            sum.value() == (self.value() + other.value()) % group_order(),
    {
        proof {
            use_type_invariant(self);
            use_type_invariant(other);
        }
        PrivateKey { bytes: scalar_plus(&self.bytes, &other.bytes) }
    }

    /// Whether two keys are the same.
    pub fn same(&self, other: &Self) -> (same: bool)
        ensures
            same == (self@ == other@),
    {
        same_bytes(&self.bytes, &other.bytes)
    }
}

proof fn lemma_le_value_is_injective(a: Seq<u8>, b: Seq<u8>)
    requires
        a.len() == b.len(),
        le_value(a) == le_value(b),
    ensures
        a == b,
    decreases a.len(),
{
    if a.len() > 0 {
        assert(a[0] == b[0] && le_value(a.skip(1)) == le_value(b.skip(1)));
        lemma_le_value_is_injective(a.skip(1), b.skip(1));
        assert forall|i: int| 0 <= i < a.len() implies a[i] == b[i] by {
            if i > 0 {
                assert(a.skip(1)[i - 1] == b.skip(1)[i - 1]);
            }
        }
    }
    assert(a =~= b);
}

/// The sum of two keys is one key, in whatever order they are added.
pub proof fn law_keys_are_added_in_any_order(a: PrivateKey, b: PrivateKey, sum: PrivateKey, other_sum: PrivateKey)
    requires
        sum.value() == (a.value() + b.value()) % group_order(),
        other_sum.value() == (b.value() + a.value()) % group_order(),
    ensures
        sum == other_sum,
{
    lemma_le_value_is_injective(sum@, other_sum@);
    assert(sum.bytes =~= other_sum.bytes);
}

} // verus!
