//! Mirroring a binary tree in place: at every node the left and the right
//! subtree change places.

use vstd::prelude::*;

verus! {

/// A node of a binary tree.
pub struct Node<T> {
    pub val: T,
    pub left: Option<Box<Node<T>>>,
    pub right: Option<Box<Node<T>>>,
}

/// The mirror image of a subtree that may be empty.
pub open spec fn mirrored<T>(tree: Option<Box<Node<T>>>) -> Option<Box<Node<T>>>
    decreases tree,
{
    match tree {
        None => None,
        Some(node) => Some(
            Box::new(Node { val: node.val, left: mirrored(node.right), right: mirrored(node.left) }),
        ),
    }
}

/// The number of nodes of a subtree.
pub open spec fn size<T>(tree: Option<Box<Node<T>>>) -> nat
    decreases tree,
{
    match tree {
        None => 0,
        Some(node) => 1 + size(node.left) + size(node.right),
    }
}

/// Mirroring twice gives the tree back.
pub proof fn lemma_mirrored_twice<T>(tree: Option<Box<Node<T>>>)
    ensures
        mirrored(mirrored(tree)) == tree,
    decreases tree,
{
    match tree {
        None => {},
        Some(node) => {
            lemma_mirrored_twice(node.left);
            lemma_mirrored_twice(node.right);
        },
    }
}

/// Mirroring keeps the number of nodes.
pub proof fn lemma_mirrored_size<T>(tree: Option<Box<Node<T>>>)
    ensures
        size(mirrored(tree)) == size(tree),
    decreases tree,
{
    match tree {
        None => {},
        Some(node) => {
            lemma_mirrored_size(node.left);
            lemma_mirrored_size(node.right);
        },
    }
}

impl<T> Node<T> {
    /// The mirror image of the tree under this node.
    pub open spec fn mirror(self) -> Node<T> {
        Node { val: self.val, left: mirrored(self.right), right: mirrored(self.left) }
    }
}

impl<T> From<T> for Node<T> {
    fn from(val: T) -> (node: Self) {
        Self { val, left: None, right: None }
    }
}

impl<T> vstd::std_specs::convert::FromSpecImpl<T> for Node<T> {
    open spec fn obeys_from_spec() -> bool {
        true
    }

    open spec fn from_spec(val: T) -> Self {
        Node { val, left: None, right: None }
    }
}

/// Mirrors a subtree that the caller hands over.
fn mirror_owned<T>(tree: Option<Box<Node<T>>>) -> (image: Option<Box<Node<T>>>)
    ensures
        image == mirrored(tree),
    decreases tree,
{
    match tree {
        None => None,
        Some(node) => {
            let Node { val, left, right } = *node;
            let new_left = mirror_owned(right);
            let new_right = mirror_owned(left);
            Some(Box::new(Node { val, left: new_left, right: new_right }))
        },
    }
}

/// Mirrors the tree under `root` in place.
pub fn rotate_in_place_deq<T>(root: &mut Node<T>)
    ensures
        *final(root) == old(root).mirror(),
{
    let left = root.left.take();
    let right = root.right.take();
    root.left = mirror_owned(right);
    root.right = mirror_owned(left);
}

/// Mirrors the tree under `root` in place, the left subtree of each node
/// before its right one.
pub fn rotate_in_place_vec<T>(root: &mut Node<T>)
    ensures
        *final(root) == old(root).mirror(),
{
    let left = root.left.take();
    let right = root.right.take();
    root.right = mirror_owned(left);
    root.left = mirror_owned(right);
}

} // verus!
