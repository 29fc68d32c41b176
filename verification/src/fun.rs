//! A persistent search tree. Inserting gives a new tree and leaves the old
//! one as it was; the two share every subtree that the insertion did not
//! pass through.

use vstd::prelude::*;
use std::sync::Arc;

verus! {

/// How one key stands to another.
#[derive(Clone, Copy, Debug, PartialEq, Eq)]
pub enum Order {
    Less,
    Equal,
    Greater,
}

/// Keys that can be put in a line.
pub trait TotalOrdered: Sized {
    /// `self` comes before `other`, or is `other`.
    spec fn le(self, other: Self) -> bool;

    proof fn total(x: Self, y: Self)
        ensures
            x.le(y) || y.le(x),
    ;

    proof fn antisymmetric(x: Self, y: Self)
        requires
            x.le(y),
            y.le(x),
        ensures
            x == y,
    ;

    proof fn transitive(x: Self, y: Self, z: Self)
        requires
            x.le(y),
            y.le(z),
        ensures
            x.le(z),
    ;

    /// Says how `self` stands to `other`.
    fn compare(&self, other: &Self) -> (order: Order)
        ensures
            match order {
                Order::Less => self.le(*other) && *self != *other,
                Order::Equal => *self == *other,
                Order::Greater => other.le(*self) && *self != *other,
            },
    ;
}

impl TotalOrdered for u64 {
    open spec fn le(self, other: Self) -> bool {
        self <= other
    }

    proof fn total(x: Self, y: Self) {
    }

    proof fn antisymmetric(x: Self, y: Self) {
    }

    proof fn transitive(x: Self, y: Self, z: Self) {
    }

    fn compare(&self, other: &Self) -> (order: Order) {
        if *self < *other {
            Order::Less
        } else if *self == *other {
            Order::Equal
        } else {
            Order::Greater
        }
    }
}

/// `a` comes before `b` and is not `b`.
pub open spec fn before<K: TotalOrdered>(a: K, b: K) -> bool {
    a.le(b) && a != b
}

/// A node of the tree. Under `less` stand the keys which the key of the
/// node is less than; under `greater` those which it is greater than.
pub struct Node<K, V> {
    pub key: Arc<K>,
    pub val: Arc<V>,
    pub less: Option<Arc<Node<K, V>>>,
    pub greater: Option<Arc<Node<K, V>>>,
}

impl<K, V> Node<K, V> {
    /// A node with no subtree.
    pub fn new(key: K, val: V) -> (node: Self)
        ensures
            *node.key == key,
            *node.val == val,
            node.less is None,
            node.greater is None,
    {
        Self { key: Arc::new(key), val: Arc::new(val), less: None, greater: None }
    }
}

/// What a subtree maps.
pub open spec fn map_of<K, V>(tree: Option<Arc<Node<K, V>>>) -> Map<K, V>
    decreases tree,
{
    match tree {
        None => Map::empty(),
        Some(node) => map_of(node.less).union_prefer_right(map_of(node.greater)).insert(
            *node.key,
            *node.val,
        ),
    }
}

/// The keys of a subtree are in order: at each node, those under `less`
/// come after its key and those under `greater` come before it.
pub open spec fn ordered<K: TotalOrdered, V>(tree: Option<Arc<Node<K, V>>>) -> bool
    decreases tree,
{
    match tree {
        None => true,
        Some(node) => {
            &&& ordered(node.less)
            &&& ordered(node.greater)
            &&& forall|k: K| #[trigger] map_of(node.less).contains_key(k) ==> before(*node.key, k)
            &&& forall|k: K|
                #[trigger] map_of(node.greater).contains_key(k) ==> before(k, *node.key)
        },
    }
}

/// A persistent tree from keys to values.
pub struct Tree<K, V> {
    pub root: Option<Arc<Node<K, V>>>,
}

impl<K, V> Default for Tree<K, V> {
    fn default() -> (tree: Self)
        ensures
            tree.root is None,
    {
        Tree { root: None }
    }
}

impl<K, V> Tree<K, V> {
    /// The empty tree.
    pub fn new() -> (tree: Self)
        ensures
            tree.root is None,
            tree@ == Map::<K, V>::empty(),
    {
        Tree { root: None }
    }

    /// What the tree maps.
    pub open spec fn view(&self) -> Map<K, V> {
        map_of(self.root)
    }
}

/// One more holder of a subtree.
fn share<K, V>(tree: &Option<Arc<Node<K, V>>>) -> (shared: Option<Arc<Node<K, V>>>)
    ensures
        shared == *tree,
{
    match tree {
        None => None,
        Some(node) => Some(node.clone()),
    }
}

/// The subtree `tree` with `key` mapped to `val`.
fn insert_at<K: TotalOrdered, V>(tree: &Option<Arc<Node<K, V>>>, key: Arc<K>, val: Arc<V>) -> (out:
    Arc<Node<K, V>>)
    requires
        ordered(*tree),
    ensures
        ordered(Some(out)),
        map_of(Some(out)) == map_of(*tree).insert(*key, *val),
    decreases *tree,
{
    match tree {
        None => {
            let out = Arc::new(Node { key, val, less: None, greater: None });
            assert(map_of(Some(out)) =~= map_of(*tree).insert(*key, *val));
            out
        },
        Some(n) => {
            proof {
                lemma_one_side(*tree);
            }
            match (*n.key).compare(&*key) {
                Order::Less => {
                    assert(before(*n.key, *key));
                    let less = insert_at(&n.less, key, val);
                    let out = Arc::new(
                        Node {
                            key: n.key.clone(),
                            val: n.val.clone(),
                            less: Some(less),
                            greater: share(&n.greater),
                        },
                    );
                    proof {
                        assert(map_of(Some(out)) =~= map_of(*tree).insert(*key, *val));
                    }
                    out
                },
                Order::Greater => {
                    assert(before(*key, *n.key));
                    let greater = insert_at(&n.greater, key, val);
                    let out = Arc::new(
                        Node {
                            key: n.key.clone(),
                            val: n.val.clone(),
                            less: share(&n.less),
                            greater: Some(greater),
                        },
                    );
                    proof {
                        assert(map_of(Some(out)) =~= map_of(*tree).insert(*key, *val));
                    }
                    out
                },
                Order::Equal => {
                    let out = Arc::new(
                        Node {
                            key: n.key.clone(),
                            val,
                            less: share(&n.less),
                            greater: share(&n.greater),
                        },
                    );
                    proof {
                        assert(map_of(Some(out)) =~= map_of(*tree).insert(*key, *val));
                    }
                    out
                },
            }
        },
    }
}

/// A key that is not the key of the root can stand on one side only.
proof fn lemma_one_side<K: TotalOrdered, V>(tree: Option<Arc<Node<K, V>>>)
    requires
        ordered(tree),
        tree is Some,
    ensures
        forall|key: K| #[trigger]
            before(*tree->0.key, key) ==> !map_of(tree->0.greater).contains_key(key),
        forall|key: K| #[trigger]
            before(key, *tree->0.key) ==> !map_of(tree->0.less).contains_key(key),
{
    let here = *tree->0.key;
    let greater = tree->0.greater;
    let less = tree->0.less;
    assert forall|key: K| #[trigger] before(here, key) implies !map_of(greater).contains_key(
        key,
    ) by {
        if map_of(greater).contains_key(key) {
            K::antisymmetric(key, here);
        }
    }
    assert forall|key: K| #[trigger] before(key, here) implies !map_of(less).contains_key(key) by {
        if map_of(less).contains_key(key) {
            K::antisymmetric(key, here);
        }
    }
}

/// What `key` is mapped to under `tree`.
fn get_at<'t, K: TotalOrdered, V>(tree: &'t Option<Arc<Node<K, V>>>, key: &K) -> (found: Option<
    &'t V,
>)
    requires
        ordered(*tree),
    ensures
        match found {
            Some(val) => map_of(*tree).contains_key(*key) && *val == map_of(*tree)[*key],
            None => !map_of(*tree).contains_key(*key),
        },
    decreases *tree,
{
    match tree {
        None => None,
        Some(n) => {
            proof {
                lemma_one_side(*tree);
            }
            match (*n.key).compare(key) {
                Order::Less => {
                    assert(before(*n.key, *key));
                    get_at(&n.less, key)
                },
                Order::Greater => {
                    assert(before(*key, *n.key));
                    get_at(&n.greater, key)
                },
                Order::Equal => Some(&*n.val),
            }
        },
    }
}

impl<K: TotalOrdered, V> Tree<K, V> {
    /// The keys are in order.
    pub open spec fn wf(&self) -> bool {
        ordered(self.root)
    }

    /// The tree with `key` mapped to `val`. This tree stays as it is.
    pub fn insert(&self, key: K, val: V) -> (tree: Self)
        requires
            self.wf(),
        ensures
            tree.wf(),
            tree@ == self@.insert(key, val),
    {
        Tree { root: Some(insert_at(&self.root, Arc::new(key), Arc::new(val))) }
    }

    /// What `key` is mapped to, if it is mapped.
    pub fn get<'t>(&'t self, key: &K) -> (found: Option<&'t V>)
        requires
            self.wf(),
        ensures
            match found {
                Some(val) => self@.contains_key(*key) && *val == self@[*key],
                None => !self@.contains_key(*key),
            },
    {
        get_at(&self.root, key)
    }
}

} // verus!
