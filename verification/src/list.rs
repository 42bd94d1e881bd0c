//! Lists of plain values.
use vstd::prelude::*;

verus! {

/// A second list with the same items.
pub fn copied<T: Copy>(items: &Vec<T>) -> (list: Vec<T>)
    ensures
        list@ == items@,
{
    let mut list: Vec<T> = Vec::new();
    let mut i: usize = 0;
    while i < items.len()
        invariant
            i <= items@.len(),
            list@ == items@.take(i as int),
        decreases items@.len() - i,
    {
        list.push(items[i]);
        assert(items@.take(i + 1) =~= items@.take(i as int).push(items@[i as int]));
        i += 1;
    }
    assert(items@.take(items@.len() as int) =~= items@);
    list
}

} // verus!
