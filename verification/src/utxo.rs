//! The wallet's unspent outputs: finding one, and choosing enough of them.
use crate::error::CommandError;
use crate::error::OutputManagerError;
use crate::hex::encode;
use crate::hex::hex_text;
use crate::types::DbWalletOutput;
use vstd::prelude::*;
use vstd::seq_lib::to_multiset_build;
use vstd::seq_lib::to_multiset_insert;

verus! {

/// Whether an output has the commitment that a hexadecimal text stands for.
pub open spec fn has_commitment(utxo: DbWalletOutput, commitment_hash: Seq<char>) -> bool {
    hex_text(utxo.commitment@) == commitment_hash
}

/// The first output with the commitment that a hexadecimal text stands for.
pub open spec fn first_with_commitment(utxos: Seq<DbWalletOutput>, commitment_hash: Seq<char>) -> Option<
    DbWalletOutput,
>
    decreases utxos.len(),
{
    if utxos.len() == 0 {
        None
    } else if has_commitment(utxos[0], commitment_hash) {
        Some(utxos[0])
    } else {
        first_with_commitment(utxos.skip(1), commitment_hash)
    }
}

/// Finds the first output with a given commitment.
pub fn get_utxo_by_commitment_hash(utxos: &[DbWalletOutput], commitment_hash: String) -> (utxo: Option<
    &DbWalletOutput,
>)
    ensures
        match utxo {
            Some(found) => first_with_commitment(utxos@, commitment_hash@) == Some(*found),
            None => first_with_commitment(utxos@, commitment_hash@) is None,
        },
{
    let mut i: usize = 0;
    assert(utxos@.skip(0) =~= utxos@);
    while i < utxos.len()
        invariant
            i <= utxos@.len(),
            first_with_commitment(utxos@, commitment_hash@) == first_with_commitment(
                utxos@.skip(i as int),
                commitment_hash@,
            ),
        decreases utxos@.len() - i,
    {
        assert(utxos@.skip(i as int).skip(1) =~= utxos@.skip(i + 1));
        let text = encode(&utxos[i].commitment);
        if text == commitment_hash {
            return Some(&utxos[i]);
        }
        i += 1;
    }
    None
}

/// What outputs are worth together.
pub open spec fn total_value(utxos: Seq<DbWalletOutput>) -> nat
    decreases utxos.len(),
{
    if utxos.len() == 0 {
        0
    } else {
        total_value(utxos.drop_last()) + utxos.last().wallet_output.value as nat
    }
}

/// How many of the leading outputs are worth no more than a value.
pub open spec fn place(utxos: Seq<DbWalletOutput>, value: u64) -> int
    decreases utxos.len(),
{
    if utxos.len() == 0 || utxos.last().wallet_output.value <= value {
        utxos.len() as int
    } else {
        place(utxos.drop_last(), value)
    }
}

/// Outputs in the order of their values, those of one value in the order in which they came.
pub open spec fn by_value(utxos: Seq<DbWalletOutput>) -> Seq<DbWalletOutput>
    decreases utxos.len(),
{
    if utxos.len() == 0 {
        utxos
    } else {
        let rest = by_value(utxos.drop_last());
        rest.insert(place(rest, utxos.last().wallet_output.value), utxos.last())
    }
}

proof fn lemma_place_is_in_range(utxos: Seq<DbWalletOutput>, value: u64)
    ensures
        0 <= place(utxos, value) <= utxos.len(),
    decreases utxos.len(),
{
    if utxos.len() > 0 {
        lemma_place_is_in_range(utxos.drop_last(), value);
    }
}

fn find_place(utxos: &Vec<DbWalletOutput>, value: u64) -> (i: usize)
    ensures
        i == place(utxos@, value),
        i <= utxos@.len(),
{
    let mut i: usize = utxos.len();
    assert(utxos@.take(i as int) =~= utxos@);
    while i > 0
        invariant
            i <= utxos@.len(),
            place(utxos@, value) == place(utxos@.take(i as int), value),
        decreases i,
    {
        assert(utxos@.take(i as int).drop_last() =~= utxos@.take(i - 1));
        if utxos[i - 1].wallet_output.value <= value {
            return i;
        }
        i -= 1;
    }
    i
}

fn sort_by_value(utxos: Vec<DbWalletOutput>) -> (sorted: Vec<DbWalletOutput>)
    ensures
        sorted@ == by_value(utxos@),
{
    let ghost all = utxos@;
    let mut rest = utxos;
    let mut sorted: Vec<DbWalletOutput> = Vec::new();
    let ghost mut done: int = 0;
    assert(all.skip(0) =~= all);
    assert(by_value(all.take(0)) =~= Seq::empty());
    while rest.len() > 0
        invariant
            0 <= done <= all.len(),
            rest@ == all.skip(done),
            sorted@ == by_value(all.take(done)),
        decreases rest@.len(),
    {
        let utxo = rest.remove(0);
        let i = find_place(&sorted, utxo.wallet_output.value);
        sorted.insert(i, utxo);
        proof {
            assert(all.take(done + 1).drop_last() =~= all.take(done));
            done = done + 1;
            assert(rest@ =~= all.skip(done));
        }
    }
    assert(all.take(done) =~= all);
    sorted
}

/// Whether so many of the cheapest outputs are the fewest that reach a target, where at least one is taken if
/// there is any.
pub open spec fn is_selection(sorted: Seq<DbWalletOutput>, target: u64, count: int) -> bool {
    &&& 0 <= count <= sorted.len()
    &&& total_value(sorted.take(count)) >= target
    &&& sorted.len() > 0 ==> count > 0
    &&& forall|k: int| 0 < k < count ==> total_value(#[trigger] sorted.take(k)) < target
}

/// Whether the running total of the outputs, from the cheapest on, is an amount until it reaches a target.
pub open spec fn totals_fit(sorted: Seq<DbWalletOutput>, target: u64) -> bool {
    forall|k: int|
        0 <= k < sorted.len() && total_value(#[trigger] sorted.take(k)) < target ==> total_value(sorted.take(k + 1))
            <= u64::MAX
}

/// Whether a result is the choice of outputs for an amount: the fewest of the cheapest that reach it, or the
/// error that all of them do not.
pub open spec fn is_choice(
    utxos: Seq<DbWalletOutput>,
    target: u64,
    r: Result<Vec<DbWalletOutput>, CommandError>,
) -> bool {
    match r {
        Ok(selected) => {
            &&& is_selection(by_value(utxos), target, selected@.len() as int)
            &&& selected@ == by_value(utxos).take(selected@.len() as int)
        },
        Err(e) => {
            &&& e == CommandError::OutputManagerError(OutputManagerError::NotEnoughFunds)
            &&& total_value(by_value(utxos)) < target
        },
    }
}

/// Whether a result is the choice of outputs for an amount, or nothing where the running total is no amount any more.
pub open spec fn is_tried_choice(
    utxos: Seq<DbWalletOutput>,
    target: u64,
    r: Option<Result<Vec<DbWalletOutput>, CommandError>>,
) -> bool {
    &&& r is Some <==> totals_fit(by_value(utxos), target)
    &&& r matches Some(choice) ==> is_choice(utxos, target, choice)
}

/// Chooses outputs for an amount, from the cheapest on, until they reach it. Gives nothing where the running
/// total is no amount any more.
pub fn try_select_utxos_for_amount(utxos: Vec<DbWalletOutput>, target: u64) -> (r: Option<
    Result<Vec<DbWalletOutput>, CommandError>,
>)
    ensures
        is_tried_choice(utxos@, target, r),
{
    let mut sorted = sort_by_value(utxos);
    let ghost all = sorted@;
    let mut total: u64 = 0;
    let mut count: usize = 0;
    assert(all.take(0) =~= Seq::empty());
    while count < sorted.len()
        invariant_except_break
            count > 0 ==> total < target,
        invariant
            all == by_value(utxos@),
            sorted@ == all,
            count <= all.len(),
            total == total_value(all.take(count as int)),
            forall|k: int| 0 < k < count ==> total_value(#[trigger] all.take(k)) < target,
            forall|k: int| 0 < k <= count ==> total_value(#[trigger] all.take(k)) <= u64::MAX,
        ensures
            count < all.len() ==> total >= target && count > 0,
        decreases all.len() - count,
    {
        proof {
            assert(all.take(count + 1).drop_last() =~= all.take(count as int));
            if count == 0 {
                assert(total_value(all.take(0)) == 0);
            }
        }
        match total.checked_add(sorted[count].wallet_output.value) {
            Some(sum) => {
                total = sum;
            },
            None => {
                assert(total_value(all.take(count as int)) < target);
                assert(total_value(all.take(count + 1)) > u64::MAX);
                return None;
            },
        }
        count += 1;
        if total >= target {
            break;
        }
    }
    proof {
        assert forall|k: int| 0 <= k < all.len() && total_value(#[trigger] all.take(k)) < target implies total_value(
            all.take(k + 1),
        ) <= u64::MAX by {
            if k >= count {
                lemma_total_grows(all, count as int, k);
            } else {
                assert(total_value(all.take(k + 1)) <= u64::MAX);
            }
        }
    }
    if total < target {
        assert(all.take(count as int) =~= all);
        return Some(Err(CommandError::OutputManagerError(OutputManagerError::NotEnoughFunds)));
    }
    sorted.truncate(count);
    Some(Ok(sorted))
}

proof fn lemma_total_grows(utxos: Seq<DbWalletOutput>, i: int, j: int)
    requires
        0 <= i <= j <= utxos.len(),
    ensures
        total_value(utxos.take(i)) <= total_value(utxos.take(j)),
    decreases j - i,
{
    if i < j {
        lemma_total_grows(utxos, i, j - 1);
        assert(utxos.take(j).drop_last() =~= utxos.take(j - 1));
    }
}

/// Chooses outputs for an amount, from the cheapest on, until they reach it.
pub fn select_utxos_for_amount(utxos: Vec<DbWalletOutput>, target: u64) -> (r: Result<
    Vec<DbWalletOutput>,
    CommandError,
>)
    requires
        totals_fit(by_value(utxos@), target),
    ensures
        is_choice(utxos@, target, r),
{
    match try_select_utxos_for_amount(utxos, target) {
        Some(choice) => choice,
        None => Err(CommandError::OutputManagerError(OutputManagerError::NotEnoughFunds)),
    }
}

/// Whether outputs are in the order of their values.
pub open spec fn is_ordered(utxos: Seq<DbWalletOutput>) -> bool {
    forall|i: int, j: int|
        0 <= i <= j < utxos.len() ==> (#[trigger] utxos[i]).wallet_output.value <= (#[trigger] utxos[j]).wallet_output.value
}

proof fn lemma_place_divides(utxos: Seq<DbWalletOutput>, value: u64)
    requires
        is_ordered(utxos),
    ensures
        forall|i: int| 0 <= i < place(utxos, value) ==> (#[trigger] utxos[i]).wallet_output.value <= value,
        forall|i: int| place(utxos, value) <= i < utxos.len() ==> (#[trigger] utxos[i]).wallet_output.value > value,
    decreases utxos.len(),
{
    if utxos.len() > 0 {
        let rest = utxos.drop_last();
        lemma_place_is_in_range(utxos, value);
        if utxos.last().wallet_output.value <= value {
            assert forall|i: int| 0 <= i < utxos.len() implies (#[trigger] utxos[i]).wallet_output.value
                <= value by {
                assert(utxos[utxos.len() - 1] == utxos.last());
            }
        } else {
            lemma_place_divides(rest, value);
            lemma_place_is_in_range(rest, value);
            assert forall|i: int| 0 <= i < place(utxos, value) implies (#[trigger] utxos[i]).wallet_output.value
                <= value by {
                assert(rest[i] == utxos[i]);
            }
            assert forall|i: int| place(utxos, value) <= i < utxos.len() implies (#[trigger] utxos[i]).wallet_output.value
                > value by {
                if i < rest.len() {
                    assert(rest[i] == utxos[i]);
                }
            }
        }
    }
}

/// The outputs that are chosen from come in the order of their values, each as often as the wallet has it.
pub proof fn law_outputs_are_sorted(utxos: Seq<DbWalletOutput>)
    ensures
        is_ordered(by_value(utxos)),
        by_value(utxos).to_multiset() == utxos.to_multiset(),
        by_value(utxos).len() == utxos.len(),
    decreases utxos.len(),
{
    if utxos.len() > 0 {
        let rest = by_value(utxos.drop_last());
        let last = utxos.last();
        let i = place(rest, last.wallet_output.value);
        law_outputs_are_sorted(utxos.drop_last());
        lemma_place_is_in_range(rest, last.wallet_output.value);
        lemma_place_divides(rest, last.wallet_output.value);
        let sorted = rest.insert(i, last);
        assert forall|a: int, b: int| 0 <= a <= b < sorted.len() implies (#[trigger] sorted[a]).wallet_output.value
            <= (#[trigger] sorted[b]).wallet_output.value by {
            if a < i && b > i {
                assert(sorted[a] == rest[a] && sorted[b] == rest[b - 1]);
            } else if a > i {
                assert(sorted[a] == rest[a - 1] && sorted[b] == rest[b - 1]);
            } else if b < i {
                assert(sorted[a] == rest[a] && sorted[b] == rest[b]);
            } else if a < i {
                assert(sorted[a] == rest[a]);
            } else if b > i {
                assert(sorted[b] == rest[b - 1]);
            }
        }
        assert(utxos =~= utxos.drop_last().push(last));
        to_multiset_build(utxos.drop_last(), last);
        to_multiset_insert(rest, i, last);
    }
}

proof fn lemma_inserting_adds_the_value(utxos: Seq<DbWalletOutput>, i: int, utxo: DbWalletOutput)
    requires
        0 <= i <= utxos.len(),
    ensures
        total_value(utxos.insert(i, utxo)) == total_value(utxos) + utxo.wallet_output.value,
    decreases utxos.len(),
{
    let all = utxos.insert(i, utxo);
    if i == utxos.len() {
        assert(all.drop_last() =~= utxos);
    } else {
        lemma_inserting_adds_the_value(utxos.drop_last(), i, utxo);
        assert(all.drop_last() =~= utxos.drop_last().insert(i, utxo));
        assert(all.last() == utxos.last());
    }
}

proof fn lemma_sorting_keeps_the_total(utxos: Seq<DbWalletOutput>)
    ensures
        total_value(by_value(utxos)) == total_value(utxos),
    decreases utxos.len(),
{
    if utxos.len() > 0 {
        let rest = by_value(utxos.drop_last());
        let value = utxos.last().wallet_output.value;
        lemma_sorting_keeps_the_total(utxos.drop_last());
        lemma_place_is_in_range(rest, value);
        lemma_inserting_adds_the_value(rest, place(rest, value), utxos.last());
    }
}

/// A choice fails exactly when all outputs together do not reach the amount.
pub proof fn law_choice_fails_for_want_of_value(
    utxos: Seq<DbWalletOutput>,
    target: u64,
    r: Result<Vec<DbWalletOutput>, CommandError>,
)
    requires
        is_choice(utxos, target, r),
    ensures
        r is Err <==> total_value(utxos) < target,
{
    lemma_sorting_keeps_the_total(utxos);
    if let Ok(selected) = r {
        let sorted = by_value(utxos);
        lemma_total_grows(sorted, selected@.len() as int, sorted.len() as int);
        assert(sorted.take(sorted.len() as int) =~= sorted);
    }
}

/// That an output has a value.
pub open spec fn is_worth(value: u64) -> spec_fn(DbWalletOutput) -> bool {
    |utxo: DbWalletOutput| utxo.wallet_output.value == value
}

proof fn lemma_filter_of_others_is_empty(utxos: Seq<DbWalletOutput>, value: u64)
    requires
        forall|i: int| 0 <= i < utxos.len() ==> (#[trigger] utxos[i]).wallet_output.value != value,
    ensures
        utxos.filter(is_worth(value)) == Seq::<DbWalletOutput>::empty(),
    decreases utxos.len(),
{
    reveal(Seq::filter);
    if utxos.len() > 0 {
        assert forall|i: int| 0 <= i < utxos.drop_last().len() implies (#[trigger] utxos.drop_last()[i]).wallet_output.value
            != value by {
            assert(utxos.drop_last()[i] == utxos[i]);
        }
        lemma_filter_of_others_is_empty(utxos.drop_last(), value);
    }
}

/// Outputs of one value come in the order in which the wallet has them.
pub proof fn law_sorting_is_stable(utxos: Seq<DbWalletOutput>, value: u64)
    ensures
        by_value(utxos).filter(is_worth(value)) == utxos.filter(is_worth(value)),
    decreases utxos.len(),
{
    let pred = is_worth(value);
    if utxos.len() > 0 {
        let rest = by_value(utxos.drop_last());
        let last = utxos.last();
        let i = place(rest, last.wallet_output.value);
        law_sorting_is_stable(utxos.drop_last(), value);
        law_outputs_are_sorted(utxos.drop_last());
        lemma_place_is_in_range(rest, last.wallet_output.value);
        lemma_place_divides(rest, last.wallet_output.value);
        let before = rest.take(i);
        let after = rest.skip(i);
        let one = seq![last];
        assert(by_value(utxos) =~= before + one + after);
        assert(rest =~= before + after);
        Seq::filter_distributes_over_add(before + one, after, pred);
        Seq::filter_distributes_over_add(before, one, pred);
        Seq::filter_distributes_over_add(before, after, pred);
        reveal(Seq::filter);
        let none = Seq::<DbWalletOutput>::empty();
        assert(one.drop_last() =~= none);
        assert(none.filter(pred) =~= none);
        assert(one.last() == last);
        assert(none.push(last) =~= one);
        if last.wallet_output.value == value {
            lemma_filter_of_others_is_empty(after, value);
            assert(by_value(utxos).filter(pred) =~= rest.filter(pred).push(last));
        } else {
            assert(by_value(utxos).filter(pred) =~= rest.filter(pred));
        }
    }
}

/// The outputs that are chosen reach the amount, none of them is worth more than one that is left, and where there are
/// several they do not reach it without the dearest of them.
pub proof fn law_choice_is_cheapest(utxos: Seq<DbWalletOutput>, target: u64, selected: Vec<DbWalletOutput>)
    requires
        is_choice(utxos, target, Ok(selected)),
    ensures
        total_value(selected@) >= target,
        selected@.len() > 1 ==> total_value(selected@.drop_last()) < target,
        forall|i: int, j: int|
            0 <= i < selected@.len() <= j < utxos.len() ==> (#[trigger] selected@[i]).wallet_output.value <= (
            #[trigger] by_value(utxos)[j]).wallet_output.value,
{
    law_outputs_are_sorted(utxos);
    let sorted = by_value(utxos);
    if selected@.len() > 1 {
        assert(selected@.drop_last() =~= sorted.take(selected@.len() - 1));
    }
    assert forall|i: int, j: int| 0 <= i < selected@.len() <= j < utxos.len() implies (
    #[trigger] selected@[i]).wallet_output.value <= (#[trigger] sorted[j]).wallet_output.value by {
        assert(selected@[i] == sorted[i]);
    }
}

/// An output is found by a commitment exactly where there is one that has it, and it is the first one.
pub proof fn law_first_with_commitment(utxos: Seq<DbWalletOutput>, commitment_hash: Seq<char>)
    ensures
        match first_with_commitment(utxos, commitment_hash) {
            Some(utxo) => exists|i: int|
                {
                    &&& 0 <= i < utxos.len()
                    &&& #[trigger] utxos[i] == utxo
                    &&& hex_text(utxos[i].commitment@) == commitment_hash
                    &&& forall|j: int| 0 <= j < i ==> hex_text((#[trigger] utxos[j]).commitment@) != commitment_hash
                },
            None => forall|i: int| 0 <= i < utxos.len() ==> hex_text((#[trigger] utxos[i]).commitment@) != commitment_hash,
        },
    decreases utxos.len(),
{
    if utxos.len() > 0 {
        let rest = utxos.skip(1);
        law_first_with_commitment(rest, commitment_hash);
        if hex_text(utxos[0].commitment@) == commitment_hash {
            assert(utxos[0] == utxos[0]);
        } else {
            match first_with_commitment(rest, commitment_hash) {
                Some(utxo) => {
                    let i = choose|i: int|
                        {
                            &&& 0 <= i < rest.len()
                            &&& #[trigger] rest[i] == utxo
                            &&& hex_text(rest[i].commitment@) == commitment_hash
                            &&& forall|j: int|
                                0 <= j < i ==> hex_text((#[trigger] rest[j]).commitment@) != commitment_hash
                        };
                    assert(utxos[i + 1] == utxo);
                    assert forall|j: int| 0 <= j < i + 1 implies hex_text((#[trigger] utxos[j]).commitment@)
                        != commitment_hash by {
                        if j > 0 {
                            assert(rest[j - 1] == utxos[j]);
                        }
                    }
                },
                None => {
                    assert forall|i: int| 0 <= i < utxos.len() implies hex_text((#[trigger] utxos[i]).commitment@)
                        != commitment_hash by {
                        if i > 0 {
                            assert(rest[i - 1] == utxos[i]);
                        }
                    }
                },
            }
        }
    }
}

/// What outputs are worth together is what those before a position and those behind it are worth, and one output is worth
/// its value.
pub proof fn law_values_add_up(a: Seq<DbWalletOutput>, b: Seq<DbWalletOutput>)
    ensures
        total_value(a + b) == total_value(a) + total_value(b),
        b.len() == 0 ==> total_value(b) == 0,
        b.len() == 1 ==> total_value(b) == b[0].wallet_output.value,
    decreases b.len(),
{
    if b.len() == 0 {
        assert(a + b =~= a);
    } else {
        law_values_add_up(a, b.drop_last());
        assert((a + b).drop_last() =~= a + b.drop_last());
        if b.len() == 1 {
            assert(total_value(b.drop_last()) == 0);
        }
    }
}

/// A choice is made of the wallet's outputs, each as often as the wallet has it: the chosen ones come in the order of their
/// values, and what is left over is worth at least as much each. A target of nothing takes the cheapest output.
pub proof fn law_choice_is_of_the_wallets_outputs(
    utxos: Seq<DbWalletOutput>,
    target: u64,
    selected: Vec<DbWalletOutput>,
)
    requires
        is_choice(utxos, target, Ok(selected)),
    ensures
        selected@.len() <= utxos.len(),
        utxos.len() > 0 ==> selected@.len() > 0,
        exists|left: Seq<DbWalletOutput>|
            {
                &&& (#[trigger] (selected@ + left)).to_multiset() == utxos.to_multiset()
                &&& is_ordered(selected@ + left)
            },
{
    law_outputs_are_sorted(utxos);
    let sorted = by_value(utxos);
    let left = sorted.skip(selected@.len() as int);
    assert(selected@ + left =~= sorted);
}

/// An error of a choice says that there are not enough funds.
pub proof fn law_choice_error_is_want_of_funds(utxos: Seq<DbWalletOutput>, target: u64, e: CommandError)
    requires
        is_choice(utxos, target, Err(e)),
    ensures
        e matches CommandError::OutputManagerError(inner) && inner is NotEnoughFunds,
        total_value(utxos) < target,
{
    law_choice_fails_for_want_of_value(utxos, target, Err(e));
}

/// A choice is made wherever all outputs together are worth an amount that there can be. It fails then only for want of
/// funds, and what is chosen reaches the target.
pub proof fn law_choice_is_made_where_the_total_is_an_amount(
    utxos: Seq<DbWalletOutput>,
    target: u64,
    r: Option<Result<Vec<DbWalletOutput>, CommandError>>,
)
    requires
        is_tried_choice(utxos, target, r),
        total_value(utxos) <= u64::MAX,
    ensures
        r is Some,
        r->Some_0 is Ok <==> total_value(utxos) >= target,
        r->Some_0 is Ok ==> total_value(r->Some_0->Ok_0@) >= target,
{
    let sorted = by_value(utxos);
    lemma_sorting_keeps_the_total(utxos);
    assert(sorted.take(sorted.len() as int) =~= sorted);
    assert forall|k: int| 0 <= k < sorted.len() && total_value(#[trigger] sorted.take(k)) < target implies total_value(
        sorted.take(k + 1),
    ) <= u64::MAX by {
        lemma_total_grows(sorted, k + 1, sorted.len() as int);
    }
    law_choice_fails_for_want_of_value(utxos, target, r->Some_0);
    if r->Some_0 is Ok {
        law_choice_is_cheapest(utxos, target, r->Some_0->Ok_0);
    }
}

} // verus!
