use minotari_multisig::error::{CommandError, OutputManagerError};
use minotari_multisig::script::TariScript;
use minotari_multisig::types::{DbWalletOutput, WalletOutput};
use minotari_multisig::utxo::{get_utxo_by_commitment_hash, select_utxos_for_amount, try_select_utxos_for_amount};

fn utxo(name: u8, value: u64) -> DbWalletOutput {
    DbWalletOutput {
        hash: [name; 32],
        commitment: [name; 32],
        wallet_output: WalletOutput { value, script: TariScript { script: vec![] }, encrypted_data: vec![] },
        payment_id: vec![],
        mined_height: None,
    }
}

fn names(utxos: &[DbWalletOutput]) -> Vec<u8> {
    utxos.iter().map(|u| u.hash[0]).collect()
}

#[test]
fn outputs_are_found_by_their_commitment() {
    let mut utxos = vec![utxo(1, 10), utxo(0xab, 20), utxo(0xab, 30)];
    utxos[2].hash = [9; 32];
    let found = get_utxo_by_commitment_hash(&utxos, "ab".repeat(32)).unwrap();
    assert_eq!(found.hash, [0xab; 32]);
    assert!(get_utxo_by_commitment_hash(&utxos, "AB".repeat(32)).is_none());
    assert!(get_utxo_by_commitment_hash(&utxos, "02".repeat(32)).is_none());
    assert!(get_utxo_by_commitment_hash(&[], "ab".repeat(32)).is_none());
}

#[test]
fn the_cheapest_outputs_are_chosen_first() {
    let utxos = vec![utxo(1, 50), utxo(2, 10), utxo(3, 30), utxo(4, 10)];
    assert_eq!(names(&select_utxos_for_amount(utxos, 45).unwrap()), vec![2, 4, 3]);
}

#[test]
fn no_more_outputs_are_chosen_than_needed() {
    let utxos = vec![utxo(1, 50), utxo(2, 10), utxo(3, 30)];
    assert_eq!(names(&select_utxos_for_amount(utxos, 40).unwrap()), vec![2, 3]);
}

#[test]
fn one_output_is_chosen_for_nothing() {
    assert_eq!(names(&select_utxos_for_amount(vec![utxo(1, 5), utxo(2, 3)], 0).unwrap()), vec![2]);
    assert!(select_utxos_for_amount(vec![], 0).unwrap().is_empty());
}

#[test]
fn too_little_value_is_an_error() {
    let result = select_utxos_for_amount(vec![utxo(1, 5), utxo(2, 3)], 9);
    assert!(matches!(result, Err(CommandError::OutputManagerError(OutputManagerError::NotEnoughFunds))));
    let result = select_utxos_for_amount(vec![], 1);
    assert!(matches!(result, Err(CommandError::OutputManagerError(OutputManagerError::NotEnoughFunds))));
}

#[test]
fn a_total_beyond_all_amounts_is_not_chosen() {
    assert!(try_select_utxos_for_amount(vec![utxo(1, u64::MAX - 1), utxo(2, u64::MAX - 1)], u64::MAX).is_none());
    let choice = try_select_utxos_for_amount(vec![utxo(1, u64::MAX), utxo(2, 7)], 7).unwrap();
    assert_eq!(names(&choice.unwrap()), vec![2]);
}
