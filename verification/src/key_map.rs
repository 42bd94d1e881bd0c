//! A map whose keys are compressed public keys.
use crate::keys::same_bytes;
use crate::keys::CompressedPublicKey;
use vstd::prelude::*;

verus! {

/// A map from compressed public keys to values.
pub struct KeyMap<V> {
    entries: Vec<(CompressedPublicKey, V)>,
}

/// Whether a key stands at a position of a list of entries.
spec fn stands_at<V>(entries: Seq<(CompressedPublicKey, V)>, key: CompressedPublicKey, i: int) -> bool {
    0 <= i < entries.len() && entries[i].0 == key
}

/// Whether a key stands anywhere in a list of entries.
spec fn stands<V>(entries: Seq<(CompressedPublicKey, V)>, key: CompressedPublicKey) -> bool {
    exists|i: int| stands_at(entries, key, i)
}

/// The map that a list of entries stands for.
spec fn map_of<V>(entries: Seq<(CompressedPublicKey, V)>) -> Map<CompressedPublicKey, V> {
    Map::new(
        |key: CompressedPublicKey| stands(entries, key),
        |key: CompressedPublicKey| entries[choose|i: int| stands_at(entries, key, i)].1,
    )
}

/// Whether no key stands twice in a list of entries.
spec fn distinct<V>(entries: Seq<(CompressedPublicKey, V)>) -> bool {
    forall|i: int, j: int|
        0 <= i < entries.len() && 0 <= j < entries.len() && #[trigger] entries[i].0 == #[trigger] entries[j].0
            ==> i == j
}

impl<V> View for KeyMap<V> {
    type V = Map<CompressedPublicKey, V>;

    closed spec fn view(&self) -> Map<CompressedPublicKey, V> {
        map_of(self.entries@)
    }
}

impl<V> KeyMap<V> {
    #[verifier::type_invariant]
    closed spec fn is_map(self) -> bool {
        distinct(self.entries@)
    }

    /// The empty map.
    pub fn new() -> (map: Self)
        ensures
            map@ == Map::<CompressedPublicKey, V>::empty(),
    {
        let map = KeyMap { entries: Vec::new() };
        assert(map@ =~= Map::<CompressedPublicKey, V>::empty());
        map
    }

    /// Gives a key its value, in place of the one that it had.
    pub fn insert(self, key: CompressedPublicKey, value: V) -> (map: Self)
        ensures
            map@ == self@.insert(key, value),
    {
        proof {
            use_type_invariant(&self);
        }
        let ghost before = self.entries@;
        let mut entries = self.entries;
        let mut i: usize = 0;
        while i < entries.len()
            invariant
                i <= entries@.len(),
                entries@ == before,
                forall|j: int| 0 <= j < i ==> (#[trigger] before[j]).0 != key,
            ensures
                i < entries@.len() ==> before[i as int].0 == key,
            decreases entries@.len() - i,
        {
            if same_bytes(&entries[i].0, &key) {
                break;
            }
            i += 1;
        }
        if i < entries.len() {
            entries[i] = (key, value);
            proof {
                let after = entries@;
                assert forall|k: CompressedPublicKey| stands(after, k) == stands(before, k) by {
                    if stands(before, k) {
                        let j = choose|j: int| stands_at(before, k, j);
                        assert(stands_at(after, k, j));
                    }
                    if stands(after, k) {
                        let j = choose|j: int| stands_at(after, k, j);
                        assert(stands_at(before, k, j));
                    }
                }
                assert(stands_at(before, key, i as int));
                assert(map_of(after) =~= map_of(before).insert(key, value));
            }
        } else {
            entries.push((key, value));
            proof {
                let after = entries@;
                assert(stands_at(after, key, before.len() as int));
                assert forall|k: CompressedPublicKey| k != key implies stands(after, k) == stands(before, k) by {
                    if stands(before, k) {
                        let j = choose|j: int| stands_at(before, k, j);
                        assert(stands_at(after, k, j));
                    }
                    if stands(after, k) {
                        let j = choose|j: int| stands_at(after, k, j);
                        assert(stands_at(before, k, j));
                    }
                }
                assert(map_of(after) =~= map_of(before).insert(key, value));
            }
        }
        KeyMap { entries }
    }

    /// Looks a key up.
    pub fn get(&self, key: &CompressedPublicKey) -> (value: Option<&V>)
        ensures
            match value {
                Some(v) => self@.dom().contains(*key) && *v == self@[*key],
                None => !self@.dom().contains(*key),
            },
    {
        proof {
            use_type_invariant(self);
        }
        let mut i: usize = 0;
        while i < self.entries.len()
            invariant
                i <= self.entries@.len(),
                distinct(self.entries@),
                forall|j: int| 0 <= j < i ==> (#[trigger] self.entries@[j]).0 != *key,
            decreases self.entries@.len() - i,
        {
            if same_bytes(&self.entries[i].0, key) {
                assert(stands_at(self.entries@, *key, i as int));
                return Some(&self.entries[i].1);
            }
            i += 1;
        }
        None
    }
}

impl<V: Copy> KeyMap<V> {
    /// A second map with the same contents.
    pub fn duplicate(&self) -> (map: Self)
        ensures
            map@ == self@,
    {
        proof {
            use_type_invariant(self);
        }
        let entries = crate::list::copied(&self.entries);
        KeyMap { entries }
    }
}

} // verus!
