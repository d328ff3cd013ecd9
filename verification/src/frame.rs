//! One of the two render buffers of a scope.
use vstd::prelude::*;
use crate::nodes::VNode;

verus! {

/// A render buffer: the trees linked into it, in the order they were
/// linked. The first is the head.
pub struct Frame {
    pub nodes: Vec<VNode>,
}

impl View for Frame {
    type V = Seq<VNode>;

    open spec fn view(&self) -> Seq<VNode> {
        self.nodes@
    }
}

impl Frame {
    /// True when the frame has a head to read.
    pub open spec fn has_head(&self) -> bool {
        self@.len() > 0
    }

    /// True of a frame that holds the placeholder and nothing else.
    pub open spec fn is_placeholder(&self) -> bool {
        self@.len() == 1 && self@[0].is_empty_text()
    }

    /// An empty frame with room for `capacity` trees.
    pub fn new(capacity: usize) -> (frame: Frame)
        ensures
            frame@ == Seq::<VNode>::empty(),
    {
        Frame { nodes: Vec::with_capacity(capacity) }
    }

    /// Forgets every tree in the frame; all handles into it become stale.
    pub fn reset(&mut self)
        ensures
            final(self)@ == Seq::<VNode>::empty(),
    {
        self.nodes.clear();
    }

    /// Links the placeholder as the next tree.
    pub fn push_placeholder(&mut self)
        ensures
            final(self)@.len() == old(self)@.len() + 1,
            final(self)@.subrange(0, old(self)@.len() as int) == old(self)@,
            final(self)@.last().is_empty_text(),
    {
        let node = VNode::empty_text();
        self.nodes.push(node);
        assert(self@.subrange(0, old(self)@.len() as int) =~= old(self)@);
    }

    /// Links `node` as the next tree and returns its position.
    pub fn assign_nodelink(&mut self, node: VNode) -> (link_idx: usize)
        ensures
            final(self)@ == old(self)@.push(node),
            link_idx == old(self)@.len(),
    {
        let len = self.nodes.len();
        self.nodes.push(node);
        len
    }

    /// The first tree linked into the frame.
    pub fn head(&self) -> (node: &VNode)
        requires
            self.has_head(),
        ensures
            *node == self@[0],
    {
        &self.nodes[0]
    }

    /// How many trees are linked.
    pub fn len(&self) -> (n: usize)
        ensures
            n == self@.len(),
    {
        self.nodes.len()
    }
}

} // verus!
