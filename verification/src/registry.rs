//! Keyed store of corrective parameters, one entry per destination node and
//! animation track.
//!
//! An entry, once written, stays as it is: the store has no removal, and
//! registering a key a second time leaves the first value in place.
//!
//! The values lie in a list, in the order in which they were registered. A
//! hash map of the engine, keyed by the plain integers of node and track,
//! binds each key to the position of its entry in that list.

use bevy::platform::collections::HashMap;
use bevy::platform::hash::FixedHasher;
use vstd::prelude::*;

use crate::types::{Key, NodeHandle, TrackId};

verus! {

/// `bevy::platform::collections::HashMap`, of which this crate sees nothing
/// but what the functions below say.
#[verifier::external_type_specification]
#[verifier::external_body]
#[verifier::reject_recursive_types(K)]
#[verifier::reject_recursive_types(V)]
#[verifier::reject_recursive_types(S)]
pub struct ExHashMap<K, V, S>(HashMap<K, V, S>);

/// `bevy::platform::hash::FixedHasher`, the hasher that the map is built
/// with. This crate names the type and never calls it.
#[verifier::external_type_specification]
#[verifier::external_body]
pub struct ExFixedHasher(FixedHasher);

/// A node and a track as plain integers, the form in which the index is keyed.
pub type IndexKey = (u64, u32);

/// The hash map from keys to positions in the list of entries.
pub type SlotIndex = HashMap<IndexKey, usize>;

/// What an index holds: the position that each of its keys is bound to.
pub uninterp spec fn slots(index: SlotIndex) -> Map<IndexKey, usize>;

/// Calls `bevy::platform::collections::HashMap::new`. Believed of it: the map
/// it returns holds no key.
#[verifier::external_body]
fn index_new() -> (created: SlotIndex)
    ensures
        forall|k: IndexKey| !slots(created).contains_key(k),
{
    HashMap::new()
}

/// Calls `bevy::platform::collections::HashMap::get` and copies the position
/// out of the reference. Believed of it: it returns the position that the map
/// binds `key` to, and `None` exactly if the map does not hold `key`.
#[verifier::external_body]
fn index_get(index: &SlotIndex, key: IndexKey) -> (slot: Option<usize>)
    ensures
        slot == (if slots(*index).contains_key(key) {
            Some(slots(*index)[key])
        } else {
            None
        }),
{
    index.get(&key).copied()
}

/// Calls `bevy::platform::collections::HashMap::insert`. Believed of it:
/// afterwards the map binds `key` to `slot` and holds every other key as
/// before; it returns what `key` was bound to before, if anything.
#[verifier::external_body]
fn index_insert(index: &mut SlotIndex, key: IndexKey, slot: usize) -> (previous: Option<usize>)
    ensures
        slots(*final(index)) == slots(*old(index)).insert(key, slot),
        previous == (if slots(*old(index)).contains_key(key) {
            Some(slots(*old(index))[key])
        } else {
            None
        }),
{
    index.insert(key, slot)
}

/// The plain integers of a key.
spec fn raw(key: Key) -> IndexKey {
    (key.0.0, key.1.0)
}

/// The mapping after `value` has been registered under `key`: the key keeps
/// the value it has, if it has one.
pub open spec fn with_entry<T>(held: Map<Key, T>, key: Key, value: T) -> Map<Key, T> {
    if held.contains_key(key) {
        held
    } else {
        held.insert(key, value)
    }
}

/// An entry, once written, is neither removed nor overwritten by a later
/// registration, whatever its key and value.
pub proof fn lemma_entry_outlives_registration<T>(
    held: Map<Key, T>,
    written: Key,
    key: Key,
    value: T,
)
    requires
        held.contains_key(written),
    ensures
        with_entry(held, key, value).contains_key(written),
        with_entry(held, key, value)[written] == held[written],
{
}

/// An entry, once written, is neither removed nor overwritten when a whole
/// registry is taken in.
pub proof fn lemma_entry_outlives_extension<T>(held: Map<Key, T>, other: Map<Key, T>, written: Key)
    requires
        held.contains_key(written),
    ensures
        other.union_prefer_right(held).contains_key(written),
        other.union_prefer_right(held)[written] == held[written],
{
}

/// A key that has no entry yet reads, once registered, the value it was
/// registered with.
pub proof fn lemma_first_registration_is_read<T>(held: Map<Key, T>, key: Key, value: T)
    requires
        !held.contains_key(key),
    ensures
        with_entry(held, key, value).contains_key(key),
        with_entry(held, key, value)[key] == value,
{
}

/// The mapping that results from registering `entries` in order, each under
/// its key unless an earlier one has taken the key. A `None` registers nothing.
pub open spec fn registered<T>(entries: Seq<Option<(Key, T)>>) -> Map<Key, T>
    decreases entries.len(),
{
    if entries.len() == 0 {
        Map::empty()
    } else {
        let earlier = registered(entries.drop_last());
        match entries.last() {
            Some((key, value)) => with_entry(earlier, key, value),
            None => earlier,
        }
    }
}

/// Whether `entries[i]` is the first entry under `key`.
pub open spec fn is_first_under<T>(entries: Seq<Option<(Key, T)>>, key: Key, i: int) -> bool {
    &&& 0 <= i < entries.len()
    &&& entries[i] matches Some(entry) && entry.0 == key
    &&& forall|j: int| 0 <= j < i ==> !(#[trigger] entries[j] matches Some(entry) && entry.0 == key)
}

/// Registering in order keeps, for every key, the value of the first entry
/// under that key, and holds no key that no entry has.
pub proof fn lemma_registered_first_wins<T>(entries: Seq<Option<(Key, T)>>, key: Key)
    ensures
        registered(entries).contains_key(key) <==> exists|i: int|
            0 <= i < entries.len() && (#[trigger] entries[i] matches Some(entry) && entry.0
                == key),
        forall|i: int|
            is_first_under(entries, key, i) ==> registered(entries)[key] == ((
            #[trigger] entries[i])->0).1,
    decreases entries.len(),
{
    if entries.len() > 0 {
        let earlier = entries.drop_last();
        let last = entries.len() - 1;
        lemma_registered_first_wins(earlier, key);
        assert forall|i: int| 0 <= i < earlier.len() implies earlier[i] == entries[i] by {}
        if registered(earlier).contains_key(key) {
            let w = choose|i: int|
                0 <= i < earlier.len() && (#[trigger] earlier[i] matches Some(entry) && entry.0
                    == key);
            assert(entries[w] == earlier[w]);
        }
        if registered(entries).contains_key(key) && !registered(earlier).contains_key(key) {
            assert(entries[last] matches Some(entry) && entry.0 == key);
        }
        assert forall|i: int| is_first_under(entries, key, i) implies registered(entries)[key] == ((
        #[trigger] entries[i])->0).1 by {
            if i < last {
                assert(is_first_under(earlier, key, i)) by {
                    assert forall|j: int| 0 <= j < i implies !(#[trigger] earlier[j] matches Some(
                        entry,
                    ) && entry.0 == key) by {
                        assert(earlier[j] == entries[j]);
                    }
                }
                assert(earlier[i] == entries[i]);
                assert(registered(earlier).contains_key(key));
            } else {
                if registered(earlier).contains_key(key) {
                    let w = choose|w: int|
                        0 <= w < earlier.len() && (#[trigger] earlier[w] matches Some(entry)
                            && entry.0 == key);
                    assert(entries[w] == earlier[w]);
                    assert(false);
                }
            }
        }
    }
}

/// One stored entry: the key it was registered under and its value.
struct Entry<T> {
    node: NodeHandle,
    track: TrackId,
    value: T,
}

impl<T> Entry<T> {
    spec fn key(self) -> IndexKey {
        (self.node.0, self.track.0)
    }
}

spec fn consistent<T>(index: Map<IndexKey, usize>, entries: Seq<Entry<T>>) -> bool {
    &&& forall|i: int|
        0 <= i < entries.len() ==> {
            &&& index.contains_key((#[trigger] entries[i]).key())
            &&& index[entries[i].key()] == i
        }
    &&& forall|k: IndexKey| #[trigger]
        index.contains_key(k) ==> {
            &&& index[k] < entries.len()
            &&& entries[index[k] as int].key() == k
        }
}

/// Mapping from `(node, track)` to a value of type `T`.
pub struct TransformationRegistry<T> {
    index: SlotIndex,
    entries: Vec<Entry<T>>,
}

impl<T> TransformationRegistry<T> {
    /// The index and the list of entries describe each other: entry `i` is
    /// found under its own key at position `i`, and every key of the index
    /// leads to the entry that carries it.
    #[verifier::type_invariant]
    spec fn inv(&self) -> bool {
        consistent(slots(self.index), self.entries@)
    }

    /// The mapping that the registry holds.
    pub closed spec fn view(&self) -> Map<Key, T> {
        Map::new(
            |k: Key| slots(self.index).contains_key(raw(k)),
            |k: Key| self.entries@[slots(self.index)[raw(k)] as int].value,
        )
    }

    /// The mapping held by the first `n` entries, in the order in which they
    /// were registered.
    spec fn prefix_view(&self, n: int) -> Map<Key, T> {
        Map::new(
            |k: Key| slots(self.index).contains_key(raw(k)) && slots(self.index)[raw(k)] < n,
            |k: Key| self.entries@[slots(self.index)[raw(k)] as int].value,
        )
    }

    /// An empty registry.
    pub fn new() -> (r: Self)
        ensures
            r@ == Map::<Key, T>::empty(),
    {
        let r = TransformationRegistry { index: index_new(), entries: Vec::new() };
        assert(r@ =~= Map::<Key, T>::empty());
        r
    }

    /// Whether the registry holds an entry for `(node, track)`.
    pub fn contains(&self, node: NodeHandle, track: TrackId) -> (b: bool)
        ensures
            b == self@.contains_key((node, track)),
    {
        index_get(&self.index, (node.0, track.0)).is_some()
    }

    /// Registers `value` for `(node, track)` unless the key already has an
    /// entry, and tells whether it did so.
    pub fn register(&mut self, node: NodeHandle, track: TrackId, value: T) -> (added: bool)
        ensures
            added == !old(self)@.contains_key((node, track)),
            final(self)@ == with_entry(old(self)@, (node, track), value),
    {
        if self.contains(node, track) {
            return false;
        }
        let mut taken = Self::new();
        core::mem::swap(self, &mut taken);
        proof {
            use_type_invariant(&taken);
        }
        let TransformationRegistry { mut index, mut entries } = taken;
        let ghost before = entries@;
        let slot = entries.len();
        entries.push(Entry { node, track, value });
        let _ = index_insert(&mut index, (node.0, track.0), slot);
        assert(consistent(slots(index), entries@)) by {
            assert forall|i: int| 0 <= i < entries@.len() implies {
                &&& slots(index).contains_key((#[trigger] entries@[i]).key())
                &&& slots(index)[entries@[i].key()] == i
            } by {
                if i < before.len() {
                    assert(entries@[i] == before[i]);
                }
            }
        }
        *self = TransformationRegistry { index, entries };
        assert(self@ =~= old(self)@.insert((node, track), value));
        true
    }
}

impl<T: Copy> TransformationRegistry<T> {
    /// The value registered for `(node, track)`, if there is one.
    pub fn get(&self, node: NodeHandle, track: TrackId) -> (found: Option<T>)
        ensures
            found == (if self@.contains_key((node, track)) {
                Some(self@[(node, track)])
            } else {
                None
            }),
    {
        proof {
            use_type_invariant(self);
        }
        match index_get(&self.index, (node.0, track.0)) {
            Some(slot) => Some(self.entries[slot].value),
            None => None,
        }
    }

    /// Registers every entry of `other` whose key has no entry yet. Entries
    /// that are already there keep their values.
    pub fn extend(&mut self, other: &Self)
        ensures
            final(self)@ == other@.union_prefer_right(old(self)@),
    {
        proof {
            use_type_invariant(other);
        }
        let n = other.entries.len();
        let mut i: usize = 0;
        assert(self@ =~= other.prefix_view(0).union_prefer_right(old(self)@));
        while i < n
            invariant
                i <= n,
                n == other.entries@.len(),
                consistent(slots(other.index), other.entries@),
                self@ == other.prefix_view(i as int).union_prefer_right(old(self)@),
            decreases n - i,
        {
            let ghost before = self@;
            let entry = &other.entries[i];
            let _ = self.register(entry.node, entry.track, entry.value);
            proof {
                let k = (entry.node, entry.track);
                assert(raw(k) == other.entries@[i as int].key());
                assert forall|q: Key| #[trigger]
                    other.prefix_view(i + 1).contains_key(q) && !other.prefix_view(
                        i as int,
                    ).contains_key(q) implies q == k by {
                    assert(other.entries@[slots(other.index)[raw(q)] as int].key() == raw(q));
                }
                assert(self@ =~= other.prefix_view(i + 1).union_prefer_right(old(self)@));
            }
            i += 1;
        }
        assert(other.prefix_view(n as int) =~= other@);
    }
}

} // verus!
