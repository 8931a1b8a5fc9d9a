use vstd::prelude::*;

verus! {

/// A node of a binary space-partition tree: the values held at the node and
/// the subtrees in front of and behind its splitting plane.
pub struct BspNode<T> {
    pub values: Vec<T>,
    pub front: Option<Box<BspNode<T>>>,
    pub back: Option<Box<BspNode<T>>>,
}

} // verus!
