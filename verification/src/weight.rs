//! The weight of a transaction, and the fee that it costs.
use crate::keys::CompressedPublicKey;
use std::num::NonZeroU64;
use tari_common_types::types::CompressedPublicKey as TariCompressedPublicKey;
use tari_script::push_pubkey_script;
use tari_transaction_components::fee::Fee;
use tari_transaction_components::helpers::borsh::SerializedSize;
use tari_transaction_components::transaction_components::covenants::Covenant;
use tari_transaction_components::transaction_components::OutputFeatures;
use tari_transaction_components::transaction_components::RangeProofType as TariRangeProofType;
use tari_transaction_components::weight::TransactionWeight as TariTransactionWeight;
use tari_transaction_components::weight::WeightParams;
use tari_transaction_components::MicroMinotari;
use vstd::arithmetic::div_mod::lemma_div_by_multiple;
use vstd::arithmetic::div_mod::lemma_fundamental_div_mod;
use vstd::prelude::*;

verus! {

/// What the parts of a transaction weigh, in grams.
#[derive(Clone, Copy)]
pub struct TransactionWeight {
    /// The weight of a kernel.
    pub kernel_weight: u64,
    /// The weight of an input.
    pub input_weight: u64,
    /// The weight of an output, without its features and scripts.
    pub output_weight: u64,
    /// How many bytes of features and scripts weigh one gram.
    pub features_and_scripts_bytes_per_gram: u64,
}

/// How the value of an output is proved to be in range.
#[derive(Clone, Copy, Debug, PartialEq, Eq, Structural)]
pub enum RangeProofType {
    /// With a proof.
    BulletProofPlus,
    /// By showing the value.
    RevealedValue,
}

/// A size rounded up to a multiple of a step, as far as a machine word holds it.
pub open spec fn rounded_up(size: nat, step: nat) -> nat {
    if size % step == 0 {
        size
    } else if size + (step - size % step) <= usize::MAX {
        (size + (step - size % step)) as nat
    } else {
        (usize::MAX - usize::MAX as nat % step) as nat
    }
}

/// An amount, or the largest one where it is above that.
pub open spec fn saturated(amount: nat) -> nat {
    if amount <= u64::MAX {
        amount
    } else {
        u64::MAX as nat
    }
}

/// The bytes of the features, the script and the covenant of an output that pays to a public key: 16 bytes of
/// features, 34 bytes of script and one byte of covenant.
pub const PAYMENT_SIZE: usize = 51;

impl TransactionWeight {
    /// Whether the weights describe a transaction: bytes weigh something, and the size of a step is a machine
    /// word.
    pub open spec fn is_valid(self) -> bool {
        0 < self.features_and_scripts_bytes_per_gram <= usize::MAX
    }

    /// The weight of a transaction with so many kernels, inputs and outputs and so many bytes of features and
    /// scripts.
    pub open spec fn grams(self, kernels: nat, inputs: nat, outputs: nat, size: nat) -> nat {
        self.kernel_weight as nat * kernels + self.input_weight as nat * inputs + self.output_weight as nat
            * outputs + size / self.features_and_scripts_bytes_per_gram as nat
    }

    /// The weight of a transaction that spends one output to one recipient without change.
    pub open spec fn payment_grams(self) -> nat {
        self.grams(1, 1, 1, rounded_up(PAYMENT_SIZE as nat, self.features_and_scripts_bytes_per_gram as nat))
    }

    /// The fee of a transaction that spends one output to one recipient without change.
    pub open spec fn payment_fee(self, fee_per_gram: u64) -> nat {
        saturated(self.payment_grams() * fee_per_gram as nat)
    }
}

/// Calls `get_serialized_size` of `tari_transaction_components` on output features that are the default ones
/// but for a maturity and a range proof type. Whatever these are, they take 16 bytes, and the call never fails.
#[verifier::external_body]
fn features_size(maturity: u64, range_proof_type: RangeProofType) -> (size: usize)
    ensures
        size == 16,
{
    let range_proof_type = match range_proof_type {
        RangeProofType::BulletProofPlus => TariRangeProofType::BulletProofPlus,
        RangeProofType::RevealedValue => TariRangeProofType::RevealedValue,
    };
    let features = OutputFeatures { maturity, range_proof_type, ..Default::default() };
    features.get_serialized_size().expect("counting bytes does not fail")
}

/// Calls `push_pubkey_script` of `tari_script`, and `get_serialized_size` of `tari_transaction_components` on
/// the script. Whatever the key is, its length, one instruction and the key take 34 bytes, and the call never
/// fails.
#[verifier::external_body]
fn script_size(key: &[u8; 32]) -> (size: usize)
    ensures
        size == 34,
{
    let script = push_pubkey_script(&TariCompressedPublicKey::new(key));
    script.get_serialized_size().expect("counting bytes does not fail")
}

/// Calls `get_serialized_size` of `tari_transaction_components` on the default covenant, which has no tokens
/// and takes one byte for their number. The call never fails.
#[verifier::external_body]
fn covenant_size() -> (size: usize)
    ensures
        size == 1,
{
    Covenant::default().get_serialized_size().expect("counting bytes does not fail")
}

/// Calls `TransactionWeight::round_up_features_and_scripts_size` of `tari_transaction_components`, which rounds
/// a size up to a multiple of the bytes per gram.
#[verifier::external_body]
fn round_up(weight: &TransactionWeight, size: usize) -> (rounded: usize)
    requires
        weight.is_valid(),
    ensures
        rounded == rounded_up(size as nat, weight.features_and_scripts_bytes_per_gram as nat),
{
    let step = NonZeroU64::new(weight.features_and_scripts_bytes_per_gram).expect("a valid weight");
    TariTransactionWeight::new(WeightParams {
        kernel_weight: weight.kernel_weight,
        input_weight: weight.input_weight,
        output_weight: weight.output_weight,
        features_and_scripts_bytes_per_gram: step,
    }).round_up_features_and_scripts_size(size)
}

/// Calls `Fee::calculate` of `tari_transaction_components`, which multiplies the weight of a transaction by the
/// fee per gram and stops at the largest amount. A weight that no machine word holds is left out.
#[verifier::external_body]
fn fee_of(
    weight: &TransactionWeight,
    fee_per_gram: u64,
    kernels: usize,
    inputs: usize,
    outputs: usize,
    size: usize,
) -> (fee: u64)
    requires
        weight.is_valid(),
        weight.grams(kernels as nat, inputs as nat, outputs as nat, size as nat) <= u64::MAX,
    ensures
        fee == saturated(
            weight.grams(kernels as nat, inputs as nat, outputs as nat, size as nat) * fee_per_gram as nat,
        ),
{
    let step = NonZeroU64::new(weight.features_and_scripts_bytes_per_gram).expect("a valid weight");
    let weight = TariTransactionWeight::new(WeightParams {
        kernel_weight: weight.kernel_weight,
        input_weight: weight.input_weight,
        output_weight: weight.output_weight,
        features_and_scripts_bytes_per_gram: step,
    });
    Fee::new(weight).calculate(MicroMinotari::from(fee_per_gram), kernels, inputs, outputs, size).as_u64()
}

impl TransactionWeight {
    /// Tells whether the weight of a transaction that spends one output to one recipient without change is a number
    /// that it can have.
    pub fn can_weigh_payment(&self) -> (fits: bool)
        ensures
            fits == (self.is_valid() && self.payment_grams() <= u64::MAX),
    {
        let step: u64 = self.features_and_scripts_bytes_per_gram;
        if step == 0 || step as u128 > usize::MAX as u128 {
            return false;
        }
        let rounded = round_up(self, PAYMENT_SIZE);
        let bytes_weight: u128 = rounded as u128 / step as u128;
        let weight: u128 = self.kernel_weight as u128 + self.input_weight as u128 + self.output_weight as u128
            + bytes_weight;
        weight <= u64::MAX as u128
    }
}

/// The fee of a transaction that spends one output to one recipient without change.
pub fn payment_fee(
    weight: &TransactionWeight,
    fee_per_gram: u64,
    maturity: u64,
    range_proof_type: RangeProofType,
    recipient: &CompressedPublicKey,
) -> (fee: u64)
    requires
        weight.is_valid(),
        weight.payment_grams() <= u64::MAX,
    ensures
        fee == weight.payment_fee(fee_per_gram),
{
    let size: usize = features_size(maturity, range_proof_type) + script_size(recipient) + covenant_size();
    let rounded = round_up(weight, size);
    fee_of(weight, fee_per_gram, 1, 1, 1, rounded)
}

/// A transaction that spends one output to one recipient without change pays for a kernel, an input, an output, and for
/// every gram that its bytes of features, script and covenant begin. Where that is more than an amount can be, it pays
/// the largest amount.
pub proof fn law_payment_pays_for_all_its_parts(
    weight: TransactionWeight,
    fee_per_gram: u64,
    bytes_grams: nat,
)
    requires
        0 < weight.features_and_scripts_bytes_per_gram,
        51 + weight.features_and_scripts_bytes_per_gram <= usize::MAX,
        weight.features_and_scripts_bytes_per_gram * (bytes_grams - 1) < 51,
        51 <= weight.features_and_scripts_bytes_per_gram * bytes_grams,
    ensures
        weight.payment_grams() == weight.kernel_weight + weight.input_weight + weight.output_weight + bytes_grams,
        ({
            let fee = (weight.kernel_weight + weight.input_weight + weight.output_weight + bytes_grams) * fee_per_gram;
            &&& fee <= u64::MAX ==> weight.payment_fee(fee_per_gram) == fee
            &&& fee > u64::MAX ==> weight.payment_fee(fee_per_gram) == u64::MAX
        }),
{
    let step = weight.features_and_scripts_bytes_per_gram as int;
    let q = bytes_grams as int;
    let d = 51int / step;
    let r = 51int % step;
    lemma_fundamental_div_mod(51, step);
    if r == 0 {
        assert(q == d) by (nonlinear_arith)
            requires
                step > 0,
                step * (q - 1) < step * d,
                step * d <= step * q,
        ;
    } else {
        assert(q == d + 1) by (nonlinear_arith)
            requires
                step > 0,
                0 < r < step,
                step * (q - 1) < step * d + r,
                step * d + r <= step * q,
        ;
        assert(step * q == step * d + step) by (nonlinear_arith)
            requires
                q == d + 1,
        ;
    }
    assert(rounded_up(51, step as nat) == step * q);
    lemma_div_by_multiple(q, step);
    assert(step * q == q * step) by (nonlinear_arith);
    assert(rounded_up(51, step as nat) / step as nat == bytes_grams);
    assert(weight.payment_grams() == weight.kernel_weight + weight.input_weight + weight.output_weight + bytes_grams);
}

} // verus!
