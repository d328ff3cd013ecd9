//! A scope: the state of one mounted component.
use vstd::prelude::*;
use crate::nodes::{ScopeId, ElementId, SchedulerMsg, VNode};
use crate::frame::Frame;
use crate::hooks::HookList;
use futures_channel::mpsc::UnboundedSender;

verus! {

/// An event registration whose callback may refer into the scope's frames.
pub struct Listener<F> {
    pub event: String,
    pub mounted_node: Option<ElementId>,
    pub callback: Option<F>,
}

/// A child component whose properties borrow from this scope's frames, with
/// the callback that drops those properties. The callback runs once.
pub struct BorrowedProps<F> {
    pub associated_scope: Option<ScopeId>,
    pub drop_props: Option<F>,
}

/// Everything in a scope that may refer into its frames. It has to be
/// cleared before a frame is reset.
pub struct SelfReferentialItems<F> {
    pub listeners: Vec<Listener<F>>,
    pub borrowed_props: Vec<BorrowedProps<F>>,
    pub suspended_nodes: Vec<u64>,
    pub tasks: Vec<F>,
    pub pending_effects: Vec<F>,
}

impl<F> SelfReferentialItems<F> {
    /// No listener, borrowed property, suspended node, task or effect is
    /// recorded.
    pub open spec fn is_empty(&self) -> bool {
        &&& self.listeners@.len() == 0
        &&& self.borrowed_props@.len() == 0
        &&& self.suspended_nodes@.len() == 0
        &&& self.tasks@.len() == 0
        &&& self.pending_effects@.len() == 0
    }

    /// A record with nothing in it.
    pub fn new() -> (items: SelfReferentialItems<F>)
        ensures
            items.is_empty(),
    {
        SelfReferentialItems {
            listeners: Vec::new(),
            borrowed_props: Vec::new(),
            suspended_nodes: Vec::new(),
            tasks: Vec::new(),
            pending_effects: Vec::new(),
        }
    }
}

/// What a record of self-referential items holds.
pub struct ItemsView<F> {
    pub listeners: Seq<Listener<F>>,
    pub borrowed_props: Seq<BorrowedProps<F>>,
    pub suspended_nodes: Seq<u64>,
    pub tasks: Seq<F>,
    pub pending_effects: Seq<F>,
}

impl<F> View for SelfReferentialItems<F> {
    type V = ItemsView<F>;

    open spec fn view(&self) -> ItemsView<F> {
        ItemsView {
            listeners: self.listeners@,
            borrowed_props: self.borrowed_props@,
            suspended_nodes: self.suspended_nodes@,
            tasks: self.tasks@,
            pending_effects: self.pending_effects@,
        }
    }
}

impl<F> ItemsView<F> {
    /// The record with nothing in it.
    pub open spec fn empty() -> ItemsView<F> {
        ItemsView {
            listeners: Seq::empty(),
            borrowed_props: Seq::empty(),
            suspended_nodes: Seq::empty(),
            tasks: Seq::empty(),
            pending_effects: Seq::empty(),
        }
    }
}

/// The state of one mounted component.
pub struct Scope<A, F> {
    pub our_arena_idx: ScopeId,
    pub parent_scope: Option<ScopeId>,
    pub height: u32,
    pub subtree: u32,
    pub is_subtree_root: bool,
    pub generation: u32,
    pub frames: [Frame; 2],
    pub hooks: HookList<A>,
    pub shared_contexts: Vec<(u64, A)>,
    pub items: SelfReferentialItems<F>,
    pub sender: UnboundedSender<SchedulerMsg>,
}

/// What a scope holds, with sequences in place of its buffers.
pub struct ScopeView<A, F> {
    pub our_arena_idx: ScopeId,
    pub parent_scope: Option<ScopeId>,
    pub height: u32,
    pub subtree: u32,
    pub is_subtree_root: bool,
    pub generation: u32,
    pub frames: Seq<Seq<VNode>>,
    pub hooks: Seq<A>,
    pub hook_cursor: nat,
    pub shared_contexts: Seq<(u64, A)>,
    pub items: ItemsView<F>,
    pub sender: UnboundedSender<SchedulerMsg>,
}

impl<A, F> View for Scope<A, F> {
    type V = ScopeView<A, F>;

    open spec fn view(&self) -> ScopeView<A, F> {
        ScopeView {
            our_arena_idx: self.our_arena_idx,
            parent_scope: self.parent_scope,
            height: self.height,
            subtree: self.subtree,
            is_subtree_root: self.is_subtree_root,
            generation: self.generation,
            frames: seq![self.frames@[0]@, self.frames@[1]@],
            hooks: self.hooks.values(),
            hook_cursor: self.hooks.cursor(),
            shared_contexts: self.shared_contexts@,
            items: self.items@,
            sender: self.sender,
        }
    }
}

/// The generation that follows `generation`: one more, or 0 after the
/// largest. Either way the parity flips.
pub open spec fn next_generation(generation: u32) -> u32 {
    if generation == u32::MAX {
        0
    } else {
        (generation + 1) as u32
    }
}

impl<A, F> ScopeView<A, F> {
    /// Which of the two frames is being written: 0 or 1.
    pub open spec fn wip_index(self) -> int {
        self.generation as int % 2
    }

    /// Which of the two frames holds the last finished render: the other one.
    pub open spec fn fin_index(self) -> int {
        1 - self.generation as int % 2
    }

    /// The frame being written.
    pub open spec fn wip_frame(self) -> Seq<VNode> {
        self.frames[self.wip_index()]
    }

    /// The frame that holds the last finished render.
    pub open spec fn fin_frame(self) -> Seq<VNode> {
        self.frames[self.fin_index()]
    }

    /// There are two frames, the finished one has a head, and the hook
    /// cursor is in range.
    pub open spec fn wf(self) -> bool {
        &&& self.frames.len() == 2
        &&& self.fin_frame().len() > 0
        &&& self.hook_cursor <= self.hooks.len()
    }

    /// The scope as it is put on the free list: identity and depth stay,
    /// everything that a later owner could see is gone.
    pub open spec fn quiesced(self) -> ScopeView<A, F> {
        ScopeView {
            parent_scope: None,
            subtree: 0,
            is_subtree_root: false,
            generation: 0,
            frames: seq![Seq::empty(), Seq::empty()],
            hooks: Seq::empty(),
            hook_cursor: 0,
            shared_contexts: Seq::empty(),
            items: ItemsView::empty(),
            ..self
        }
    }

    /// True of a scope as it is put on the free list.
    pub open spec fn is_quiesced(self) -> bool {
        self == self.quiesced()
    }

    /// True of a scope right after its creation under `id`: both frames
    /// hold the placeholder, frame 0 is the one being written, and there are
    /// no hooks, shared contexts or items.
    pub open spec fn is_fresh(
        self,
        id: ScopeId,
        parent: Option<ScopeId>,
        height: u32,
        subtree: u32,
    ) -> bool {
        &&& self.our_arena_idx == id
        &&& self.parent_scope == parent
        &&& self.height == height
        &&& self.subtree == subtree
        &&& !self.is_subtree_root
        &&& self.generation == 0
        &&& self.frames.len() == 2
        &&& self.frames[0].len() == 1
        &&& self.frames[0][0].is_empty_text()
        &&& self.frames[1].len() == 1
        &&& self.frames[1][0].is_empty_text()
        &&& self.hooks == Seq::<A>::empty()
        &&& self.hook_cursor == 0
        &&& self.shared_contexts == Seq::<(u64, A)>::empty()
        &&& self.items == ItemsView::<F>::empty()
    }

    /// The scope after a render that produced `node`: the frame that was
    /// being written holds exactly that tree and becomes the finished one.
    pub open spec fn with_render(self, node: VNode) -> ScopeView<A, F> {
        ScopeView {
            frames: self.frames.update(self.wip_index(), seq![node]),
            generation: next_generation(self.generation),
            ..self
        }
    }
}

impl<A, F> Scope<A, F> {
    /// The number of the frame being written.
    pub fn wip_slot(&self) -> (i: usize)
        ensures
            i == self@.wip_index(),
    {
        (self.generation % 2) as usize
    }

    /// The number of the frame that holds the last finished render.
    pub fn fin_slot(&self) -> (i: usize)
        ensures
            i == self@.fin_index(),
    {
        (1 - self.generation % 2) as usize
    }

    /// The frame being written.
    pub fn wip_frame(&self) -> (frame: &Frame)
        ensures
            frame@ == self@.wip_frame(),
    {
        &self.frames[self.wip_slot()]
    }

    /// The frame that holds the last finished render.
    pub fn fin_frame(&self) -> (frame: &Frame)
        ensures
            frame@ == self@.fin_frame(),
    {
        &self.frames[self.fin_slot()]
    }

    /// Empties the frame being written.
    pub fn reset_wip_frame(&mut self)
        ensures
            final(self)@ == (ScopeView {
                frames: old(self)@.frames.update(old(self)@.wip_index(), Seq::empty()),
                ..old(self)@
            }),
    {
        let i = self.wip_slot();
        self.frames[i].reset();
        assert(final(self)@.frames =~= old(self)@.frames.update(
            old(self)@.wip_index(),
            Seq::empty(),
        ));
    }

    /// Makes the frame that was being written the finished one.
    pub fn cycle_frame(&mut self)
        ensures
            final(self)@ == (ScopeView {
                generation: next_generation(old(self)@.generation),
                ..old(self)@
            }),
            final(self)@.wip_index() == old(self)@.fin_index(),
            final(self)@.fin_index() == old(self)@.wip_index(),
    {
        if self.generation == u32::MAX {
            self.generation = 0;
        } else {
            self.generation = self.generation + 1;
        }
    }
}

} // verus!
