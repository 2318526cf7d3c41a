//! An immutable map from identifiers to values. Every change gives a new
//! map and leaves the old one as it was; the values are shared between the
//! versions, not copied.

use crate::hash::Digest;
use std::sync::Arc;
use vstd::prelude::*;

verus! {

/// Why a value cannot be inserted.
#[derive(Clone, Copy, Debug, PartialEq, Eq, Structural)]
pub enum InsertError {
    /// The key has a value already.
    EntryExists,
}

/// Why a value cannot be removed.
#[derive(Clone, Copy, Debug, PartialEq, Eq, Structural)]
pub enum RemoveError {
    /// The key has no value.
    KeyNotFound,
}

/// Why a value cannot be updated.
#[derive(Clone, Copy, Debug, PartialEq, Eq, Structural)]
pub enum UpdateError<E> {
    /// The key has no value.
    KeyNotFound,
    /// The new value could not be made.
    ValueCallbackError(E),
}

/// Another pointer to the value that `a` points to, by `Arc::clone` of std:
/// the value is not copied, and the new pointer reads the same value.
#[verifier::external_body]
fn share<V>(a: &Arc<V>) -> (r: Arc<V>)
    ensures
        r == *a,
{
    Arc::clone(a)
}

/// One key with its value.
pub struct Entry<V> {
    key: Digest,
    value: Arc<V>,
}

/// Number of bits of a key that the tree branches on. Keys that agree in
/// all of them share a leaf.
pub const MAX_DEPTH: usize = 64;

/// A node of the tree of a map.
pub enum Node<V> {
    /// No entry.
    Empty,
    /// The entries whose keys lead here: one, or at the greatest depth all
    /// that agree in every bit the tree branches on.
    Leaf { entries: Vec<Entry<V>> },
    /// The entries whose key has bit `depth` clear, and those that have it
    /// set.
    Branch { zero: Arc<Node<V>>, one: Arc<Node<V>> },
}

/// An immutable map from identifiers to values: a binary tree over the bits
/// of the keys. A change copies the nodes on the path to the key and shares
/// all others with the version before.
pub struct PersistentMap<V> {
    root: Arc<Node<V>>,
}

/// The map that a sequence of entries stands for: later entries win.
pub closed spec fn map_of<V>(entries: Seq<Entry<V>>) -> Map<Digest, V>
    decreases entries.len(),
{
    if entries.len() == 0 {
        Map::empty()
    } else {
        map_of(entries.drop_last()).insert(entries.last().key, *entries.last().value)
    }
}

/// Whether no key occurs twice.
pub closed spec fn distinct_keys<V>(entries: Seq<Entry<V>>) -> bool {
    forall|a: int, b: int|
        0 <= a < b < entries.len() ==> (#[trigger] entries[a]).key != (#[trigger] entries[b]).key
}

proof fn lemma_map_of_domain<V>(entries: Seq<Entry<V>>, key: Digest)
    ensures
        map_of(entries).dom().contains(key) <==> exists|i: int|
            0 <= i < entries.len() && (#[trigger] entries[i]).key == key,
    decreases entries.len(),
{
    if entries.len() > 0 {
        let front = entries.drop_last();
        lemma_map_of_domain(front, key);
        if map_of(entries).dom().contains(key) {
            if entries.last().key == key {
                assert(entries[entries.len() - 1].key == key);
            } else {
                let i = choose|i: int| 0 <= i < front.len() && (#[trigger] front[i]).key == key;
                assert(entries[i].key == key);
            }
        }
        if exists|i: int| 0 <= i < entries.len() && (#[trigger] entries[i]).key == key {
            let i = choose|i: int| 0 <= i < entries.len() && (#[trigger] entries[i]).key == key;
            if i < front.len() {
                assert(front[i].key == key);
            }
        }
    }
}

proof fn lemma_map_of_value<V>(entries: Seq<Entry<V>>, i: int)
    requires
        distinct_keys(entries),
        0 <= i < entries.len(),
    ensures
        map_of(entries).dom().contains(entries[i].key),
        map_of(entries)[entries[i].key] == *entries[i].value,
    decreases entries.len(),
{
    let front = entries.drop_last();
    if i < entries.len() - 1 {
        assert(distinct_keys(front)) by {
            assert forall|a: int, b: int| 0 <= a < b < front.len() implies (#[trigger] front[a]).key
                != (#[trigger] front[b]).key by {
                assert(front[a] == entries[a] && front[b] == entries[b]);
            }
        }
        lemma_map_of_value(front, i);
        assert(front[i] == entries[i]);
        assert(entries[i].key != entries[entries.len() - 1].key);
    }
}

/// The map that a node stands for.
pub closed spec fn node_map<V>(n: Node<V>) -> Map<Digest, V>
    decreases n,
{
    match n {
        Node::Empty => Map::empty(),
        Node::Leaf { entries } => map_of(entries@),
        Node::Branch { zero, one } => node_map(*zero).union_prefer_right(node_map(*one)),
    }
}

/// Whether a node at the given depth is in order: a leaf above the greatest
/// depth has one entry, no leaf has a key twice, and the entries under a
/// branch are on the side of their bit.
pub closed spec fn node_fits<V>(n: Node<V>, depth: nat) -> bool
    decreases n,
{
    match n {
        Node::Empty => true,
        Node::Leaf { entries } => distinct_keys(entries@) && depth <= MAX_DEPTH && (depth
            < MAX_DEPTH ==> entries@.len() == 1),
        Node::Branch { zero, one } => {
            &&& depth < MAX_DEPTH
            &&& node_fits(*zero, depth + 1)
            &&& node_fits(*one, depth + 1)
            &&& forall|k: Digest| #[trigger] node_map(*zero).dom().contains(k) ==> !k.key_bit(depth)
            &&& forall|k: Digest| #[trigger] node_map(*one).dom().contains(k) ==> k.key_bit(depth)
        },
    }
}

impl<V> View for PersistentMap<V> {
    type V = Map<Digest, V>;

    closed spec fn view(&self) -> Map<Digest, V> {
        node_map(*self.root)
    }
}

fn bucket_position<V>(entries: &Vec<Entry<V>>, key: &Digest) -> (r: Option<usize>)
    requires
        distinct_keys(entries@),
    ensures
        match r {
            Some(i) => i < entries@.len() && entries@[i as int].key == *key && map_of(
                entries@,
            ).dom().contains(*key) && map_of(entries@)[*key] == *entries@[i as int].value,
            None => !map_of(entries@).dom().contains(*key) && forall|k: int|
                0 <= k < entries@.len() ==> (#[trigger] entries@[k]).key != *key,
        },
{
    proof {
        lemma_map_of_domain(entries@, *key);
    }
    let mut i: usize = 0;
    while i < entries.len()
        invariant
            i <= entries.len(),
            distinct_keys(entries@),
            forall|k: int| 0 <= k < i ==> (#[trigger] entries@[k]).key != *key,
        decreases entries.len() - i,
    {
        if entries[i].key.equals(key) {
            proof {
                lemma_map_of_value(entries@, i as int);
            }
            return Some(i);
        }
        i = i + 1;
    }
    None
}

fn shared_bucket<V>(entries: &Vec<Entry<V>>) -> (r: Vec<Entry<V>>)
    ensures
        r@ == entries@,
{
    let mut out: Vec<Entry<V>> = Vec::new();
    let mut i: usize = 0;
    while i < entries.len()
        invariant
            i <= entries.len(),
            out@ == entries@.subrange(0, i as int),
        decreases entries.len() - i,
    {
        let e = Entry { key: entries[i].key, value: share(&entries[i].value) };
        out.push(e);
        proof {
            assert(entries@.subrange(0, i + 1) =~= entries@.subrange(0, i as int).push(
                entries@[i as int],
            ));
        }
        i = i + 1;
    }
    proof {
        assert(entries@.subrange(0, entries@.len() as int) =~= entries@);
    }
    out
}

fn single_leaf<V>(key: Digest, value: Arc<V>, depth: usize) -> (r: Arc<Node<V>>)
    requires
        depth <= MAX_DEPTH,
    ensures
        node_fits(*r, depth as nat),
        node_map(*r) == Map::<Digest, V>::empty().insert(key, *value),
{
    let mut entries: Vec<Entry<V>> = Vec::new();
    entries.push(Entry { key, value });
    proof {
        assert(entries@.drop_last() =~= Seq::<Entry<V>>::empty());
        assert(map_of(entries@.drop_last()) == Map::<Digest, V>::empty());
    }
    Arc::new(Node::Leaf { entries })
}

fn lookup_node<'a, V>(node: &'a Node<V>, key: &Digest, depth: usize) -> (r: Option<&'a V>)
    requires
        node_fits(*node, depth as nat),
        depth <= MAX_DEPTH,
    ensures
        match r {
            Some(v) => node_map(*node).dom().contains(*key) && *v == node_map(*node)[*key],
            None => !node_map(*node).dom().contains(*key),
        },
    decreases MAX_DEPTH - depth,
{
    match node {
        Node::Empty => {
            assert(node_map(*node) == Map::<Digest, V>::empty());
            None
        },
        Node::Leaf { entries } => match bucket_position(entries, key) {
            Some(i) => Some(&*entries[i].value),
            None => None,
        },
        Node::Branch { zero, one } => {
            assert(node_map(*node) == node_map(**zero).union_prefer_right(node_map(**one)));
            if key.bit(depth) {
                lookup_node(&**one, key, depth + 1)
            } else {
                lookup_node(&**zero, key, depth + 1)
            }
        },
    }
}

fn branch_of<V>(zero: Arc<Node<V>>, one: Arc<Node<V>>, depth: usize) -> (r: Arc<Node<V>>)
    requires
        depth < MAX_DEPTH,
        node_fits(*zero, (depth + 1) as nat),
        node_fits(*one, (depth + 1) as nat),
        forall|k: Digest| #[trigger] node_map(*zero).dom().contains(k) ==> !k.key_bit(depth as nat),
        forall|k: Digest| #[trigger] node_map(*one).dom().contains(k) ==> k.key_bit(depth as nat),
    ensures
        node_fits(*r, depth as nat),
        node_map(*r) == node_map(*zero).union_prefer_right(node_map(*one)),
{
    Arc::new(Node::Branch { zero, one })
}

fn empty_node<V>() -> (r: Arc<Node<V>>)
    ensures
        node_map(*r) == Map::<Digest, V>::empty(),
        forall|d: nat| node_fits(*r, d),
{
    Arc::new(Node::Empty)
}

fn insert_node<V>(node: &Arc<Node<V>>, key: Digest, value: Arc<V>, depth: usize) -> (r: Arc<
    Node<V>,
>)
    requires
        node_fits(**node, depth as nat),
        depth <= MAX_DEPTH,
        !node_map(**node).dom().contains(key),
    ensures
        node_fits(*r, depth as nat),
        node_map(*r) == node_map(**node).insert(key, *value),
    decreases MAX_DEPTH - depth,
{
    match &**node {
        Node::Empty => {
            assert(node_map(**node) == Map::<Digest, V>::empty());
            single_leaf(key, value, depth)
        },
        Node::Leaf { entries } => {
            if depth >= MAX_DEPTH {
                let mut bucket = shared_bucket(entries);
                proof {
                    lemma_map_of_domain(entries@, key);
                }
                bucket.push(Entry { key, value });
                proof {
                    assert(bucket@.drop_last() =~= entries@);
                }
                Arc::new(Node::Leaf { entries: bucket })
            } else {
                let there = share(node);
                let other = entries[0].key;
                proof {
                    assert(node_map(**node) == map_of(entries@));
                    assert(entries@.drop_last() =~= Seq::<Entry<V>>::empty());
                    assert(map_of(entries@.drop_last()) == Map::<Digest, V>::empty());
                    assert(map_of(entries@) == Map::<Digest, V>::empty().insert(
                        other,
                        *entries@[0].value,
                    ));
                    assert(node_map(**node).dom() =~= set![other]);
                }
                if key.bit(depth) {
                    if other.bit(depth) {
                        let one = insert_node(&there, key, value, depth + 1);
                        let r = branch_of(empty_node(), one, depth);
                        proof {
                            assert(node_map(*r) =~= node_map(**node).insert(key, *value));
                        }
                        r
                    } else {
                        let one = single_leaf(key, value, depth + 1);
                        let r = branch_of(there, one, depth);
                        proof {
                            assert(node_map(*r) =~= node_map(**node).insert(key, *value));
                        }
                        r
                    }
                } else {
                    if other.bit(depth) {
                        let zero = single_leaf(key, value, depth + 1);
                        let r = branch_of(zero, there, depth);
                        proof {
                            assert(node_map(*r) =~= node_map(**node).insert(key, *value));
                        }
                        r
                    } else {
                        let zero = insert_node(&there, key, value, depth + 1);
                        let r = branch_of(zero, empty_node(), depth);
                        proof {
                            assert(node_map(*r) =~= node_map(**node).insert(key, *value));
                        }
                        r
                    }
                }
            }
        },
        Node::Branch { zero, one } => {
            assert(node_map(**node) == node_map(**zero).union_prefer_right(node_map(**one)));
            if key.bit(depth) {
                let next = insert_node(one, key, value, depth + 1);
                let r = branch_of(share(zero), next, depth);
                proof {
                    assert(node_map(*r) =~= node_map(**node).insert(key, *value));
                }
                r
            } else {
                let next = insert_node(zero, key, value, depth + 1);
                let r = branch_of(next, share(one), depth);
                proof {
                    assert(node_map(*r) =~= node_map(**node).insert(key, *value));
                }
                r
            }
        },
    }
}

fn replace_node<V>(node: &Arc<Node<V>>, key: &Digest, value: Arc<V>, depth: usize) -> (r: Arc<
    Node<V>,
>)
    requires
        node_fits(**node, depth as nat),
        depth <= MAX_DEPTH,
        node_map(**node).dom().contains(*key),
    ensures
        node_fits(*r, depth as nat),
        node_map(*r) == node_map(**node).insert(*key, *value),
    decreases MAX_DEPTH - depth,
{
    match &**node {
        Node::Empty => {
            assert(node_map(**node) == Map::<Digest, V>::empty());
            vstd::pervasive::unreached()
        },
        Node::Leaf { entries } => match bucket_position(entries, key) {
            None => vstd::pervasive::unreached(),
            Some(i) => {
                let mut bucket = shared_bucket(entries);
                let entry = Entry { key: *key, value };
                proof {
                    lemma_map_of_update(entries@, i as int, entry);
                }
                bucket.set(i, entry);
                proof {
                    assert(bucket@ =~= entries@.update(i as int, bucket@[i as int]));
                }
                Arc::new(Node::Leaf { entries: bucket })
            },
        },
        Node::Branch { zero, one } => {
            assert(node_map(**node) == node_map(**zero).union_prefer_right(node_map(**one)));
            if key.bit(depth) {
                let next = replace_node(one, key, value, depth + 1);
                let r = branch_of(share(zero), next, depth);
                proof {
                    assert(node_map(*r) =~= node_map(**node).insert(*key, *value));
                }
                r
            } else {
                let next = replace_node(zero, key, value, depth + 1);
                let r = branch_of(next, share(one), depth);
                proof {
                    assert(node_map(*r) =~= node_map(**node).insert(*key, *value));
                }
                r
            }
        },
    }
}

fn remove_node<V>(node: &Arc<Node<V>>, key: &Digest, depth: usize) -> (r: Arc<Node<V>>)
    requires
        node_fits(**node, depth as nat),
        depth <= MAX_DEPTH,
        node_map(**node).dom().contains(*key),
    ensures
        node_fits(*r, depth as nat),
        node_map(*r) == node_map(**node).remove(*key),
    decreases MAX_DEPTH - depth,
{
    match &**node {
        Node::Empty => {
            assert(node_map(**node) == Map::<Digest, V>::empty());
            vstd::pervasive::unreached()
        },
        Node::Leaf { entries } => match bucket_position(entries, key) {
            None => vstd::pervasive::unreached(),
            Some(i) => {
                if entries.len() == 1 {
                    proof {
                        lemma_map_of_remove(entries@, i as int);
                        assert(entries@.remove(i as int) =~= Seq::<Entry<V>>::empty());
                    }
                    empty_node()
                } else {
                    let mut bucket = shared_bucket(entries);
                    proof {
                        lemma_map_of_remove(entries@, i as int);
                    }
                    let _gone = bucket.remove(i);
                    proof {
                        assert(bucket@ =~= entries@.remove(i as int));
                    }
                    Arc::new(Node::Leaf { entries: bucket })
                }
            },
        },
        Node::Branch { zero, one } => {
            assert(node_map(**node) == node_map(**zero).union_prefer_right(node_map(**one)));
            if key.bit(depth) {
                let next = remove_node(one, key, depth + 1);
                let r = branch_of(share(zero), next, depth);
                proof {
                    assert(node_map(*r) =~= node_map(**node).remove(*key));
                }
                r
            } else {
                let next = remove_node(zero, key, depth + 1);
                let r = branch_of(next, share(one), depth);
                proof {
                    assert(node_map(*r) =~= node_map(**node).remove(*key));
                }
                r
            }
        },
    }
}

fn node_is_empty<V>(node: &Node<V>, depth: usize) -> (r: bool)
    requires
        node_fits(*node, depth as nat),
        depth <= MAX_DEPTH,
    ensures
        r == (forall|k: Digest| !node_map(*node).dom().contains(k)),
    decreases MAX_DEPTH - depth,
{
    match node {
        Node::Empty => {
            assert(node_map(*node) == Map::<Digest, V>::empty());
            true
        },
        Node::Leaf { entries } => {
            proof {
                assert(node_map(*node) == map_of(entries@));
                if entries@.len() > 0 {
                    lemma_map_of_domain(entries@, entries@[0].key);
                    assert(map_of(entries@).dom().contains(entries@[0].key));
                }
            }
            entries.len() == 0
        },
        Node::Branch { zero, one } => {
            assert(node_map(*node) == node_map(**zero).union_prefer_right(node_map(**one)));
            let a = node_is_empty(&**zero, depth + 1);
            let b = node_is_empty(&**one, depth + 1);
            proof {
                if !a {
                    let k = choose|k: Digest| node_map(**zero).dom().contains(k);
                    assert(node_map(*node).dom().contains(k));
                }
                if !b {
                    let k = choose|k: Digest| node_map(**one).dom().contains(k);
                    assert(node_map(*node).dom().contains(k));
                }
            }
            a && b
        },
    }
}

impl<V> PersistentMap<V> {
    #[verifier::type_invariant]
    spec fn inv(self) -> bool {
        node_fits(*self.root, 0)
    }

    /// Another handle on the same map: the tree is shared, not copied.
    pub fn share(&self) -> (r: PersistentMap<V>)
        ensures
            r@ == self@,
    {
        proof {
            use_type_invariant(self);
        }
        PersistentMap { root: share(&self.root) }
    }

    /// The empty map.
    pub fn new() -> (r: PersistentMap<V>)
        ensures
            r@ == Map::<Digest, V>::empty(),
    {
        PersistentMap { root: empty_node() }
    }

    /// Whether the map has no entry.
    pub fn is_empty(&self) -> (r: bool)
        ensures
            r == (self@ == Map::<Digest, V>::empty()),
    {
        proof {
            use_type_invariant(self);
        }
        let r = node_is_empty(&*self.root, 0);
        proof {
            if r {
                assert(self@ =~= Map::<Digest, V>::empty());
            }
        }
        r
    }

    /// Whether the key has a value.
    pub fn contains_key(&self, key: &Digest) -> (r: bool)
        ensures
            r == self@.dom().contains(*key),
    {
        self.lookup(key).is_some()
    }

    /// The value of the key, if it has one.
    pub fn lookup(&self, key: &Digest) -> (r: Option<&V>)
        ensures
            match r {
                Some(v) => self@.dom().contains(*key) && *v == self@[*key],
                None => !self@.dom().contains(*key),
            },
    {
        proof {
            use_type_invariant(self);
        }
        lookup_node(&*self.root, key, 0)
    }

    /// The map with one more entry; an error where the key has a value
    /// already. The receiver stays as it is.
    pub fn insert(&self, key: Digest, value: V) -> (r: Result<PersistentMap<V>, InsertError>)
        ensures
            match r {
                Ok(next) => !self@.dom().contains(key) && next@ == self@.insert(key, value),
                Err(e) => self@.dom().contains(key) && e == InsertError::EntryExists,
            },
    {
        proof {
            use_type_invariant(self);
        }
        if self.contains_key(&key) {
            Err(InsertError::EntryExists)
        } else {
            Ok(PersistentMap { root: insert_node(&self.root, key, Arc::new(value), 0) })
        }
    }

    /// The map with the value of the key replaced; an error where the key
    /// has no value. The receiver stays as it is.
    pub fn replace(&self, key: &Digest, value: V) -> (r: Result<PersistentMap<V>, RemoveError>)
        ensures
            match r {
                Ok(next) => self@.dom().contains(*key) && next@ == self@.insert(*key, value),
                Err(e) => !self@.dom().contains(*key) && e == RemoveError::KeyNotFound,
            },
    {
        proof {
            use_type_invariant(self);
        }
        if self.contains_key(key) {
            Ok(PersistentMap { root: replace_node(&self.root, key, Arc::new(value), 0) })
        } else {
            Err(RemoveError::KeyNotFound)
        }
    }

    /// The map without the key; an error where the key has no value. The
    /// receiver stays as it is.
    pub fn remove(&self, key: &Digest) -> (r: Result<PersistentMap<V>, RemoveError>)
        ensures
            match r {
                Ok(next) => self@.dom().contains(*key) && next@ == self@.remove(*key),
                Err(e) => !self@.dom().contains(*key) && e == RemoveError::KeyNotFound,
            },
    {
        proof {
            use_type_invariant(self);
        }
        if self.contains_key(key) {
            Ok(PersistentMap { root: remove_node(&self.root, key, 0) })
        } else {
            Err(RemoveError::KeyNotFound)
        }
    }
}

proof fn lemma_distinct_front<V>(entries: Seq<Entry<V>>)
    requires
        distinct_keys(entries),
        entries.len() > 0,
    ensures
        distinct_keys(entries.drop_last()),
{
    let front = entries.drop_last();
    assert forall|a: int, b: int| 0 <= a < b < front.len() implies (#[trigger] front[a]).key != (
    #[trigger] front[b]).key by {
        assert(front[a] == entries[a] && front[b] == entries[b]);
    }
}

proof fn lemma_map_of_update<V>(entries: Seq<Entry<V>>, i: int, e: Entry<V>)
    requires
        distinct_keys(entries),
        0 <= i < entries.len(),
        e.key == entries[i].key,
    ensures
        distinct_keys(entries.update(i, e)),
        map_of(entries.update(i, e)) == map_of(entries).insert(e.key, *e.value),
    decreases entries.len(),
{
    let next = entries.update(i, e);
    assert(distinct_keys(next)) by {
        assert forall|a: int, b: int| 0 <= a < b < next.len() implies (#[trigger] next[a]).key != (
        #[trigger] next[b]).key by {
            assert(next[a].key == entries[a].key && next[b].key == entries[b].key);
        }
    }
    let front = entries.drop_last();
    lemma_distinct_front(entries);
    if i == entries.len() - 1 {
        assert(next.drop_last() =~= front);
        assert(map_of(next) =~= map_of(entries).insert(e.key, *e.value));
    } else {
        lemma_map_of_update(front, i, e);
        assert(front[i] == entries[i]);
        assert(next.drop_last() =~= front.update(i, e));
        assert(next.last() == entries.last());
        assert(entries[i].key != entries[entries.len() - 1].key);
        assert(map_of(next) =~= map_of(entries).insert(e.key, *e.value));
    }
}

proof fn lemma_map_of_remove<V>(entries: Seq<Entry<V>>, i: int)
    requires
        distinct_keys(entries),
        0 <= i < entries.len(),
    ensures
        distinct_keys(entries.remove(i)),
        map_of(entries.remove(i)) == map_of(entries).remove(entries[i].key),
    decreases entries.len(),
{
    let next = entries.remove(i);
    assert(distinct_keys(next)) by {
        assert forall|a: int, b: int| 0 <= a < b < next.len() implies (#[trigger] next[a]).key != (
        #[trigger] next[b]).key by {
            let a2 = if a < i { a } else { a + 1 };
            let b2 = if b < i { b } else { b + 1 };
            assert(next[a] == entries[a2] && next[b] == entries[b2]);
        }
    }
    let front = entries.drop_last();
    lemma_distinct_front(entries);
    if i == entries.len() - 1 {
        assert(next =~= front);
        lemma_map_of_domain(front, entries[i].key);
        assert(!map_of(front).dom().contains(entries[i].key)) by {
            if map_of(front).dom().contains(entries[i].key) {
                let k = choose|k: int| 0 <= k < front.len() && (#[trigger] front[k]).key == entries[i].key;
                assert(entries[k].key == entries[i].key);
            }
        }
        assert(map_of(next) =~= map_of(entries).remove(entries[i].key));
    } else {
        lemma_map_of_remove(front, i);
        assert(front[i] == entries[i]);
        assert(next.drop_last() =~= front.remove(i));
        assert(next.last() == entries.last());
        assert(entries[i].key != entries[entries.len() - 1].key);
        assert(map_of(next) =~= map_of(entries).remove(entries[i].key));
    }
}

} // verus!
