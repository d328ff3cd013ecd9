//! The arena that owns every scope.
use vstd::prelude::*;
use crate::nodes::{ScopeId, ElementId, NodeHandle, SchedulerMsg, VNode, Element};
use crate::frame::Frame;
use crate::hooks::HookList;
use crate::scope::{Scope, ScopeView, SelfReferentialItems, ItemsView};
use crate::drop_order::{DropStep, drop_from, total_props, without_first_props, without_listeners,
    lemma_total_props_update, lemma_drop_from_shrinks, same_props, record_ready,
    lemma_same_props_same_total, lemma_drop_from_reads_props_only};
use crate::outside::{FxTable, table_insert, table_get, table_remove, slab_entries,
    slab_vacant_key, slab_new, slab_insert, slab_remove, slab_get, clone_sender};
use crate::laws::{lemma_creates_keeps_wf, lemma_removed_keeps_wf};
use slab::Slab;
use futures_channel::mpsc::UnboundedSender;

verus! {

/// The sizes that an earlier instance of a component was seen to need.
#[derive(Clone, Copy, Debug, PartialEq, Eq, Structural)]
pub struct Heuristic {
    pub hook_arena_size: usize,
    pub node_arena_size: usize,
}

/// Owns all scopes: the slots they live in, the table from live ids to
/// slots, the list of retired slots, the table of size heuristics and the
/// slot map of reserved nodes.
pub struct ScopeArena<C, A, F> {
    slots: Vec<Scope<A, F>>,
    callers: Vec<C>,
    scope_counter: usize,
    scopes: FxTable<usize>,
    pub heuristics: FxTable<Heuristic>,
    free_scopes: Vec<usize>,
    nodes: Slab<NodeHandle>,
    pub sender: UnboundedSender<SchedulerMsg>,
}

/// What an arena holds.
pub struct ArenaView<C, A, F> {
    /// Every slot ever allocated, live or retired.
    pub slots: Seq<ScopeView<A, F>>,
    /// The render callback of each slot.
    pub callers: Seq<C>,
    /// The id that the next scope gets.
    pub counter: usize,
    /// The slot of each live scope, by id.
    pub live: Map<usize, usize>,
    /// The retired slots; the last is reused first.
    pub free: Seq<usize>,
    /// The size heuristics, by component identity.
    pub heuristics: Map<usize, Heuristic>,
    /// The reserved nodes, by key.
    pub reserved: Map<usize, NodeHandle>,
    /// The key that the next reservation gets.
    pub vacant_key: usize,
    /// The channel to the scheduler.
    pub sender: UnboundedSender<SchedulerMsg>,
}

impl<C, A, F> ArenaView<C, A, F> {
    /// True when a live scope has this id.
    pub open spec fn contains(self, id: ScopeId) -> bool {
        self.live.contains_key(id.0)
    }

    /// The slot of a live scope.
    pub open spec fn slot_of(self, id: ScopeId) -> int {
        self.live[id.0] as int
    }

    /// The live scope with this id.
    pub open spec fn scope(self, id: ScopeId) -> ScopeView<A, F> {
        self.slots[self.slot_of(id)]
    }

    /// The slot that the next scope moves into: the retired slot that was
    /// freed last, or a new one when none is retired.
    pub open spec fn next_slot(self) -> int {
        if self.free.len() > 0 {
            self.free.last() as int
        } else {
            self.slots.len() as int
        }
    }

    /// True when `after` is this arena with one more scope, created under
    /// `id` with the given callback, parent, height and subtree: the id is
    /// the counter's value, the counter moves on, the scope sits in
    /// `next_slot` and is fresh, and every other slot is as it was. A reused
    /// slot keeps its channel handle.
    pub open spec fn creates(
        self,
        after: ArenaView<C, A, F>,
        id: ScopeId,
        caller: C,
        parent: Option<ScopeId>,
        height: u32,
        subtree: u32,
    ) -> bool {
        &&& id == ScopeId(self.counter)
        &&& after == (ArenaView {
            slots: after.slots,
            callers: after.callers,
            counter: (self.counter + 1) as usize,
            live: self.live.insert(id.0, self.next_slot() as usize),
            free: if self.free.len() > 0 {
                self.free.drop_last()
            } else {
                self.free
            },
            ..self
        })
        &&& after.slots[self.next_slot()].is_fresh(id, parent, height, subtree)
        &&& after.slots.len() <= usize::MAX
        &&& self.free.len() > 0 ==> {
            &&& after.slots.len() == self.slots.len()
            &&& after.callers == self.callers.update(self.next_slot(), caller)
            &&& after.slots[self.next_slot()].sender == self.slots[self.next_slot()].sender
        }
        &&& self.free.len() == 0 ==> {
            &&& after.slots.len() == self.slots.len() + 1
            &&& after.callers == self.callers.push(caller)
        }
        &&& forall|j: int|
            0 <= j < self.slots.len() && j != self.next_slot() ==> after.slots[j] == self.slots[j]
    }

    /// The reservations after `node` was reserved under the vacant key.
    /// Which key is vacant afterwards is not said.
    pub open spec fn reserves(self, node: NodeHandle) -> ArenaView<C, A, F> {
        ArenaView { reserved: self.reserved.insert(self.vacant_key, node), ..self }
    }

    /// The arena after the reserved key was released: the key is vacant
    /// again.
    pub open spec fn releases(self, key: usize) -> ArenaView<C, A, F> {
        ArenaView { reserved: self.reserved.remove(key), vacant_key: key, ..self }
    }

    /// The arena with `scope` in the slot of the live scope `id`.
    pub open spec fn with_scope(self, id: ScopeId, scope: ScopeView<A, F>) -> ArenaView<C, A, F> {
        ArenaView { slots: self.slots.update(self.slot_of(id), scope), ..self }
    }

    /// The arena after a render of the live scope `id` came back with
    /// `out`: a tree becomes the only content of the frame that was being
    /// written, and that frame becomes the finished one; without a tree
    /// nothing changes.
    pub open spec fn completed(self, id: ScopeId, out: Element) -> ArenaView<C, A, F> {
        match out {
            Some(link) => ArenaView {
                slots: self.slots.update(self.slot_of(id), self.scope(id).with_render(link.node)),
                ..self
            },
            None => self,
        }
    }

    /// Every live id leads to a slot that holds a scope with that id, below
    /// the counter and with a readable finished frame; every retired slot is
    /// quiesced, listed once, and not live.
    pub open spec fn wf(self) -> bool {
        &&& self.callers.len() == self.slots.len()
        &&& self.slots.len() <= usize::MAX
        &&& forall|id: usize| #[trigger]
            self.live.contains_key(id) ==> {
                &&& self.live[id] < self.slots.len()
                &&& self.slots[self.live[id] as int].our_arena_idx == ScopeId(id)
                &&& self.slots[self.live[id] as int].wf()
                &&& id < self.counter
            }
        &&& forall|i: int|
            0 <= i < self.free.len() ==> {
                &&& (#[trigger] self.free[i]) < self.slots.len()
                &&& self.slots[self.free[i] as int].is_quiesced()
            }
        &&& forall|i: int, j: int|
            0 <= i < j < self.free.len() ==> #[trigger] self.free[i] != #[trigger] self.free[j]
        &&& forall|id: usize, i: int|
            self.live.contains_key(id) && 0 <= i < self.free.len() ==> #[trigger] self.live[id]
                != #[trigger] self.free[i]
    }
}

/// Replacing a live scope by one with the same id and a readable finished
/// frame keeps the arena well-formed.
pub proof fn lemma_replace_live<C, A, F>(
    arena: ArenaView<C, A, F>,
    id: ScopeId,
    scope: ScopeView<A, F>,
)
    requires
        arena.wf(),
        arena.contains(id),
        scope.our_arena_idx == id,
        scope.wf(),
    ensures
        arena.with_scope(id, scope).wf(),
{
    let after = ArenaView { slots: arena.slots.update(arena.slot_of(id), scope), ..arena };
    let slot = arena.live[id.0];
    assert forall|other: usize| #[trigger] after.live.contains_key(other) implies {
        &&& after.live[other] < after.slots.len()
        &&& after.slots[after.live[other] as int].our_arena_idx == ScopeId(other)
        &&& after.slots[after.live[other] as int].wf()
        &&& other < after.counter
    } by {
        assert(arena.live.contains_key(other));
        if arena.live[other] == slot {
            assert(arena.slots[slot as int].our_arena_idx == ScopeId(other));
            assert(arena.slots[slot as int].our_arena_idx == id);
        }
    }
    assert forall|i: int| 0 <= i < after.free.len() implies {
        &&& (#[trigger] after.free[i]) < after.slots.len()
        &&& after.slots[after.free[i] as int].is_quiesced()
    } by {
        assert(arena.live[id.0] != arena.free[i]);
    }
}

/// The views of the scopes, slot by slot.
pub open spec fn views_of<A, F>(scopes: Seq<Scope<A, F>>) -> Seq<ScopeView<A, F>> {
    Seq::new(scopes.len(), |i: int| scopes[i]@)
}

impl<C, A, F> View for ScopeArena<C, A, F> {
    type V = ArenaView<C, A, F>;

    closed spec fn view(&self) -> ArenaView<C, A, F> {
        ArenaView {
            slots: views_of(self.slots@),
            callers: self.callers@,
            counter: self.scope_counter,
            live: self.scopes@,
            free: self.free_scopes@,
            heuristics: self.heuristics@,
            reserved: slab_entries(self.nodes),
            vacant_key: slab_vacant_key(self.nodes),
            sender: self.sender,
        }
    }
}

impl<C, A, F> ScopeArena<C, A, F> {
    /// An arena with no scope and no reserved node. Ids start at 0.
    pub fn new(sender: UnboundedSender<SchedulerMsg>) -> (arena: ScopeArena<C, A, F>)
        ensures
            arena@.wf(),
            arena@.slots.len() == 0,
            arena@.callers.len() == 0,
            arena@.counter == 0,
            arena@.live == Map::<usize, usize>::empty(),
            arena@.free.len() == 0,
            arena@.heuristics == Map::<usize, Heuristic>::empty(),
            arena@.reserved == Map::<usize, NodeHandle>::empty(),
            arena@.vacant_key == 0,
            arena@.sender == sender,
    {
        ScopeArena {
            scope_counter: 0,
            slots: Vec::new(),
            callers: Vec::new(),
            scopes: FxTable::default(),
            heuristics: FxTable::default(),
            free_scopes: Vec::new(),
            nodes: slab_new(),
            sender,
        }
    }

    /// The slot of a live scope.
    fn slot_index(&self, id: &ScopeId) -> (slot: usize)
        requires
            self@.wf(),
            self@.contains(*id),
        ensures
            slot == self@.slot_of(*id),
            slot < self.slots@.len(),
    {
        *table_get(&self.scopes, id.0).unwrap()
    }

    /// The live scope with this id, if there is one.
    pub fn get_scope(&self, id: &ScopeId) -> (found: Option<&Scope<A, F>>)
        requires
            self@.wf(),
        ensures
            found.is_some() == self@.contains(*id),
            found.is_some() ==> found.unwrap()@ == self@.scope(*id),
    {
        match table_get(&self.scopes, id.0) {
            Some(slot) => Some(&self.slots[*slot]),
            None => None,
        }
    }

    /// Mutable access to the live scope with this id, if there is one. The
    /// arena afterwards holds whatever the caller leaves in the scope; it
    /// stays well-formed as long as the scope keeps its id, a readable
    /// finished frame and a hook cursor in range.
    pub fn get_scope_mut(&mut self, id: &ScopeId) -> (found: Option<&mut Scope<A, F>>)
        requires
            old(self)@.wf(),
        ensures
            found.is_some() == old(self)@.contains(*id),
            found.is_none() ==> final(self)@ == old(self)@,
            found matches Some(scope) ==> scope@ == old(self)@.scope(*id),
            found matches Some(scope) ==> final(self)@ == old(self)@.with_scope(*id, final(scope)@),
            found matches Some(scope) ==> (final(scope)@.our_arena_idx == *id && final(scope)@.wf()
                ==> old(self)@.with_scope(*id, final(scope)@).wf()),
    {
        let slot = match table_get(&self.scopes, id.0) {
            Some(slot) => *slot,
            None => {
                return None;
            },
        };
        proof {
            let before = self.slots@;
            assert forall|scope: Scope<A, F>| #[trigger]
                views_of(before.update(slot as int, scope)) == views_of(before).update(
                    slot as int,
                    scope@,
                ) by {
                assert(views_of(before.update(slot as int, scope)) =~= views_of(before).update(
                    slot as int,
                    scope@,
                ));
            }
            assert forall|scope: ScopeView<A, F>|
                scope.our_arena_idx == *id && scope.wf() implies (#[trigger] old(self)@.with_scope(
                *id,
                scope,
            )).wf() by {
                lemma_replace_live(old(self)@, *id, scope);
            }
        }
        Some(&mut self.slots[slot])
    }

    /// The slot that holds the live scope with this id, if there is one.
    /// Two scopes that are live at the same time never share a slot; a
    /// scope created after a removal may move into the slot that was freed.
    pub fn get_scope_raw(&self, id: &ScopeId) -> (found: Option<usize>)
        requires
            self@.wf(),
        ensures
            found.is_some() == self@.contains(*id),
            found.is_some() ==> found.unwrap() == self@.slot_of(*id),
    {
        match table_get(&self.scopes, id.0) {
            Some(slot) => Some(*slot),
            None => None,
        }
    }

    /// Creates a scope for the component `fc_ptr` and returns its id: the
    /// counter's value, which no scope has had before. The scope moves into
    /// the slot that was retired last, or into a new slot when none is
    /// retired. Either way it starts with the placeholder in both frames
    /// and with no hooks, shared contexts or items.
    pub fn new_with_key(
        &mut self,
        fc_ptr: usize,
        caller: C,
        parent_scope: Option<ScopeId>,
        height: u32,
        subtree: u32,
    ) -> (id: ScopeId)
        requires
            old(self)@.wf(),
            old(self)@.counter < usize::MAX,
        ensures
            id == ScopeId(old(self)@.counter),
            old(self)@.creates(final(self)@, id, caller, parent_scope, height, subtree),
            final(self)@.wf(),
    {
        let ghost given = caller;
        let new_scope_id = ScopeId(self.scope_counter);
        self.scope_counter = self.scope_counter + 1;
        let slot: usize;
        if let Some(old_slot) = self.free_scopes.pop() {
            slot = old_slot;
            assert(old(self)@.free[old(self)@.free.len() - 1] == slot);
            assert(old(self)@.slots[slot as int].is_quiesced());
            self.callers[slot] = caller;
            self.slots[slot].parent_scope = parent_scope;
            self.slots[slot].height = height;
            self.slots[slot].subtree = subtree;
            self.slots[slot].our_arena_idx = new_scope_id;
            self.slots[slot].frames[0].push_placeholder();
            self.slots[slot].frames[1].push_placeholder();
            proof {
                let fresh = self.slots@[slot as int]@;
                let was = old(self)@.slots[slot as int];
                assert(fresh.hooks =~= Seq::<A>::empty());
                assert(fresh.shared_contexts =~= Seq::<(u64, A)>::empty());
                assert(fresh.items.listeners =~= Seq::empty());
                assert(fresh.items.borrowed_props =~= Seq::empty());
                assert(fresh.items.suspended_nodes =~= Seq::empty());
                assert(fresh.items.tasks =~= Seq::empty());
                assert(fresh.items.pending_effects =~= Seq::empty());
                assert(was.frames[0].len() == 0);
                assert(was.frames[1].len() == 0);
            }
        } else {
            let (node_capacity, hook_capacity) = match table_get(&self.heuristics, fc_ptr) {
                Some(heuristic) => (heuristic.node_arena_size, heuristic.hook_arena_size),
                None => (0, 0),
            };
            let mut frames = [Frame::new(node_capacity), Frame::new(node_capacity)];
            frames[0].push_placeholder();
            frames[1].push_placeholder();
            let scope = Scope {
                sender: clone_sender(&self.sender),
                our_arena_idx: new_scope_id,
                parent_scope,
                height,
                frames,
                subtree,
                is_subtree_root: false,
                generation: 0,
                hooks: HookList::new(hook_capacity),
                shared_contexts: Vec::new(),
                items: SelfReferentialItems::new(),
            };
            proof {
                assert(scope@.items.listeners =~= Seq::empty());
                assert(scope@.items.borrowed_props =~= Seq::empty());
                assert(scope@.items.suspended_nodes =~= Seq::empty());
                assert(scope@.items.tasks =~= Seq::empty());
                assert(scope@.items.pending_effects =~= Seq::empty());
                assert(scope@.shared_contexts =~= Seq::<(u64, A)>::empty());
            }
            slot = self.slots.len();
            self.slots.push(scope);
            self.callers.push(caller);
        }
        let prev = table_insert(&mut self.scopes, new_scope_id.0, slot);
        let _count = self.slots.len();
        proof {
            assert(prev.is_none());
            assert(final(self)@.free =~= if old(self)@.free.len() > 0 {
                old(self)@.free.drop_last()
            } else {
                old(self)@.free
            });
            assert forall|j: int|
                0 <= j < old(self)@.slots.len() && j != old(self)@.next_slot() implies final(self)@.slots[j] == old(self)@.slots[j] by {}
            lemma_creates_keeps_wf(
                old(self)@,
                self@,
                new_scope_id,
                given,
                parent_scope,
                height,
                subtree,
            );
        }
        new_scope_id
    }
}

impl<C, A, F: FnOnce()> ScopeArena<C, A, F> {
    /// Finalizes everything that borrows from the scope, bottom-up, and
    /// returns the steps in the order they happened.
    ///
    /// For each borrowed-properties record of the scope, in order of
    /// registration, the child that the record names is finalized first,
    /// then the record's drop callback is taken and run. Only after the
    /// last record does the scope drop its own listeners.
    ///
    /// Every scope that the pass reaches has to be live, and every record
    /// it reaches has to name a child and still hold its callback.
    pub fn ensure_drop_safety(&mut self, scope_id: &ScopeId) -> (steps: Vec<DropStep>)
        requires
            old(self)@.wf(),
            drop_from(old(self)@.slots, old(self)@.live, scope_id.0).is_some(),
        ensures
            final(self)@.wf(),
            final(self)@ == (ArenaView { slots: final(self)@.slots, ..old(self)@ }),
            drop_from(old(self)@.slots, old(self)@.live, scope_id.0) == Some(
                (final(self)@.slots, steps@),
            ),
        decreases total_props(old(self)@.slots),
    {
        let ghost live = self@.live;
        let ghost id = scope_id.0;
        let ghost target = drop_from(self@.slots, live, id).unwrap();
        let slot = self.slot_index(scope_id);
        let mut steps: Vec<DropStep> = Vec::new();
        while self.slots[slot].items.borrowed_props.len() > 0
            invariant
                self@.wf(),
                self@ == (ArenaView { slots: self@.slots, ..old(self)@ }),
                live == old(self)@.live,
                id == scope_id.0,
                live.contains_key(id),
                slot == live[id],
                slot < self.slots@.len(),
                drop_from(self@.slots, live, id).is_some(),
                drop_from(self@.slots, live, id).unwrap().0 == target.0,
                steps@ + drop_from(self@.slots, live, id).unwrap().1 == target.1,
                total_props(self@.slots) <= total_props(old(self)@.slots),
            decreases total_props(self@.slots),
        {
            let ghost before = self@;
            let record = self.slots[slot].items.borrowed_props.remove(0);
            let ghost popped = before.slots.update(
                slot as int,
                without_first_props(before.slots[slot as int]),
            );
            proof {
                assert(before.slots[slot as int].items.borrowed_props.len() > 0);
                assert(record == before.slots[slot as int].items.borrowed_props[0]);
                assert(self.slots@[slot as int]@.items.borrowed_props
                    =~= before.slots[slot as int].items.borrowed_props.drop_first());
                assert(self@.slots =~= popped);
                lemma_total_props_update(
                    before.slots,
                    slot as int,
                    without_first_props(before.slots[slot as int]),
                );
                lemma_replace_live(before, *scope_id, without_first_props(before.slots[slot as int]));
                assert(self@ == (ArenaView { slots: popped, ..before }));
            }
            let child = record.associated_scope.unwrap();
            let mut below = self.ensure_drop_safety(&child);
            proof {
                lemma_drop_from_shrinks(popped, live, child.0);
            }
            let drop_props = record.drop_props.unwrap();
            drop_props();
            steps.append(&mut below);
            steps.push(DropStep::PropsDropped(child));
            proof {
                let rest = drop_from(self@.slots, live, id).unwrap().1;
                assert(steps@ + rest =~= target.1);
            }
        }
        let ghost before = self@;
        self.slots[slot].items.listeners.clear();
        steps.push(DropStep::ListenersReleased(*scope_id));
        proof {
            assert(self.slots@[slot as int]@.items.listeners =~= Seq::empty());
            assert(self@.slots =~= before.slots.update(
                slot as int,
                without_listeners(before.slots[slot as int]),
            ));
            assert(steps@ =~= target.1);
            lemma_replace_live(before, *scope_id, without_listeners(before.slots[slot as int]));
            assert(self@ == (ArenaView {
                slots: before.slots.update(
                    slot as int,
                    without_listeners(before.slots[slot as int]),
                ),
                ..before
            }));
        }
        steps
    }
}

/// The scope as a render finds it: the hook cursor at the start, the frame
/// to be written empty, and no suspended node, task or effect left. Hooks,
/// shared contexts and the finished frame are untouched.
pub open spec fn ready_to_render<A, F>(scope: ScopeView<A, F>) -> ScopeView<A, F> {
    ScopeView {
        hook_cursor: 0,
        frames: scope.frames.update(scope.wip_index(), Seq::empty()),
        items: ItemsView {
            suspended_nodes: Seq::empty(),
            tasks: Seq::empty(),
            pending_effects: Seq::empty(),
            ..scope.items
        },
        ..scope
    }
}

/// The arena as the render callback of the live scope `id` finds it: the
/// scope and all that borrows from it finalized, then the scope made ready.
pub open spec fn prepared<C, A, F: FnOnce()>(arena: ArenaView<C, A, F>, id: ScopeId) -> ArenaView<
    C,
    A,
    F,
>
    recommends
        drop_from(arena.slots, arena.live, id.0).is_some(),
{
    let dropped = drop_from(arena.slots, arena.live, id.0).unwrap().0;
    ArenaView {
        slots: dropped.update(arena.slot_of(id), ready_to_render(dropped[arena.slot_of(id)])),
        ..arena
    }
}

/// The arena after the live scope `id` was removed: the scope and all that
/// borrows from it finalized, the scope quiesced, its id no longer live and
/// its slot the next to be reused.
pub open spec fn removed<C, A, F: FnOnce()>(arena: ArenaView<C, A, F>, id: ScopeId) -> ArenaView<
    C,
    A,
    F,
>
    recommends
        drop_from(arena.slots, arena.live, id.0).is_some(),
{
    let dropped = drop_from(arena.slots, arena.live, id.0).unwrap().0;
    ArenaView {
        slots: dropped.update(arena.slot_of(id), dropped[arena.slot_of(id)].quiesced()),
        live: arena.live.remove(id.0),
        free: arena.free.push(arena.live[id.0]),
        ..arena
    }
}

impl<C, A, F: FnOnce()> ScopeArena<C, A, F> {
    /// Removes the scope: finalizes it and all that borrows from it, drops
    /// its hooks, shared contexts and items, empties both frames, and puts
    /// its slot on the free list. Returns `None`, and changes nothing, when
    /// no live scope has this id.
    pub fn try_remove(&mut self, id: &ScopeId) -> (done: Option<()>)
        requires
            old(self)@.wf(),
            old(self)@.contains(*id) ==> drop_from(old(self)@.slots, old(self)@.live, id.0).is_some(),
        ensures
            final(self)@.wf(),
            done.is_some() == old(self)@.contains(*id),
            !old(self)@.contains(*id) ==> final(self)@ == old(self)@,
            old(self)@.contains(*id) ==> final(self)@ == removed(old(self)@, *id),
    {
        let slot = match table_get(&self.scopes, id.0) {
            Some(slot) => *slot,
            None => {
                return None;
            },
        };
        let _steps = self.ensure_drop_safety(id);
        let ghost dropped = self@;
        let _prev = table_remove(&mut self.scopes, id.0);
        self.slots[slot].hooks.clear();
        self.slots[slot].shared_contexts.clear();
        self.slots[slot].parent_scope = None;
        self.slots[slot].generation = 0;
        self.slots[slot].is_subtree_root = false;
        self.slots[slot].subtree = 0;
        self.slots[slot].frames[0].reset();
        self.slots[slot].frames[1].reset();
        self.slots[slot].items.borrowed_props.clear();
        self.slots[slot].items.listeners.clear();
        self.slots[slot].items.pending_effects.clear();
        self.slots[slot].items.suspended_nodes.clear();
        self.slots[slot].items.tasks.clear();
        self.free_scopes.push(slot);
        proof {
            let now = self.slots@[slot as int]@;
            let was = dropped.slots[slot as int];
            assert(now.frames =~= was.quiesced().frames);
            assert(now.hooks =~= Seq::empty());
            assert(now.shared_contexts =~= Seq::empty());
            assert(now.items.listeners =~= Seq::empty());
            assert(now.items.borrowed_props =~= Seq::empty());
            assert(now.items.suspended_nodes =~= Seq::empty());
            assert(now.items.tasks =~= Seq::empty());
            assert(now.items.pending_effects =~= Seq::empty());
            assert(now == was.quiesced());
            assert(self@.slots =~= dropped.slots.update(slot as int, was.quiesced()));
            assert(self@.free =~= old(self)@.free.push(slot));
            assert(self@ == removed(old(self)@, *id));
            lemma_removed_keeps_wf(old(self)@, *id);
        }
        Some(())
    }
}

impl<C, A, F> ScopeArena<C, A, F> {
    /// Stores the outcome of a render of the live scope `id`. A tree
    /// becomes the head, and the only content, of the frame that was being
    /// written; that frame becomes the finished one, and `true` comes back.
    /// Without a tree nothing changes and `false` comes back.
    ///
    /// A tree has to be claimed by the scope that was rendered.
    pub fn complete_render(&mut self, id: &ScopeId, out: Element) -> (rendered: bool)
        requires
            old(self)@.wf(),
            old(self)@.contains(*id),
            out.is_some() ==> out.unwrap().scope_id == Some(*id),
        ensures
            final(self)@.wf(),
            rendered == out.is_some(),
            final(self)@ == old(self)@.completed(*id, out),
    {
        let slot = self.slot_index(id);
        match out {
            Some(link) => {
                let ghost node = link.node;
                let ghost was = self@.slots[slot as int];
                self.slots[slot].reset_wip_frame();
                let wip = self.slots[slot].wip_slot();
                let _link_idx = self.slots[slot].frames[wip].assign_nodelink(link.node);
                self.slots[slot].cycle_frame();
                proof {
                    let now = self.slots@[slot as int]@;
                    assert(now.frames =~= was.frames.update(was.wip_index(), seq![node]));
                    assert(now == was.with_render(node));
                    assert(self@.slots =~= old(self)@.slots.update(slot as int, was.with_render(node)));
                    lemma_replace_live(old(self)@, *id, was.with_render(node));
                }
                true
            },
            None => false,
        }
    }

    /// The head of the frame that the live scope `id` is writing. The frame
    /// has a head after creation and after each render that produced a
    /// tree; a render that produced none leaves it empty.
    pub fn wip_head(&self, id: &ScopeId) -> (node: &VNode)
        requires
            self@.wf(),
            self@.contains(*id),
            self@.scope(*id).wip_frame().len() > 0,
        ensures
            *node == self@.scope(*id).wip_frame()[0],
    {
        let slot = self.slot_index(id);
        self.slots[slot].wip_frame().head()
    }

    /// The head of the finished frame of the live scope `id`: the tree of
    /// its last render that produced one, or the placeholder before that.
    pub fn fin_head(&self, id: &ScopeId) -> (node: &VNode)
        requires
            self@.wf(),
            self@.contains(*id),
        ensures
            *node == self@.scope(*id).fin_frame()[0],
    {
        let slot = self.slot_index(id);
        self.slots[slot].fin_frame().head()
    }

    /// The tree that the live scope `id` shows: the head of its finished
    /// frame.
    pub fn root_node(&self, id: &ScopeId) -> (node: &VNode)
        requires
            self@.wf(),
            self@.contains(*id),
        ensures
            *node == self@.scope(*id).fin_frame()[0],
    {
        self.fin_head(id)
    }

    /// Reserves a key for the node. The key is the vacant one: it is held
    /// by no other reservation, and it is the key that was released last,
    /// if one was released since the last reservation.
    pub fn reserve_node(&mut self, node: NodeHandle) -> (id: ElementId)
        ensures
            id.0 == old(self)@.vacant_key,
            !old(self)@.reserved.contains_key(id.0),
            final(self)@ == (ArenaView {
                vacant_key: final(self)@.vacant_key,
                ..old(self)@.reserves(node)
            }),
    {
        let key = slab_insert(&mut self.nodes, node);
        ElementId(key)
    }

    /// Releases a reserved key; the next reservation gets it.
    pub fn collect_garbage(&mut self, id: ElementId)
        requires
            old(self)@.reserved.contains_key(id.0),
        ensures
            final(self)@ == old(self)@.releases(id.0),
    {
        let _handle = slab_remove(&mut self.nodes, id.0);
    }

    /// The node reserved under this key, if the key is reserved.
    pub fn get_element(&self, id: ElementId) -> (found: Option<NodeHandle>)
        ensures
            found == (if self@.reserved.contains_key(id.0) {
                Some(self@.reserved[id.0])
            } else {
                None
            }),
    {
        slab_get(&self.nodes, id.0)
    }
}

impl<C: Fn(&Scope<A, F>) -> Element, A, F: FnOnce()> ScopeArena<C, A, F> {
    /// Renders the live scope `id` once. First the scope and all that
    /// borrows from it are finalized; then the hook cursor goes back to the
    /// start, the frame to be written is emptied and what is left of the
    /// scope's items is dropped; then the render callback runs on the
    /// scope; last its outcome is stored as `complete_render` says.
    ///
    /// The callback has to accept the scope as it is then, and a tree that
    /// it returns has to be claimed by that scope.
    pub fn run_scope(&mut self, id: &ScopeId) -> (rendered: bool)
        requires
            old(self)@.wf(),
            old(self)@.contains(*id),
            drop_from(old(self)@.slots, old(self)@.live, id.0).is_some(),
            forall|cx: Scope<A, F>|
                cx@ == prepared(old(self)@, *id).scope(*id) ==> call_requires(
                    old(self)@.callers[old(self)@.slot_of(*id)],
                    (&cx,),
                ),
            forall|cx: Scope<A, F>, out: Element|
                cx@ == prepared(old(self)@, *id).scope(*id) && call_ensures(
                    old(self)@.callers[old(self)@.slot_of(*id)],
                    (&cx,),
                    out,
                ) && out.is_some() ==> out.unwrap().scope_id == Some(*id),
        ensures
            final(self)@.wf(),
            exists|cx: Scope<A, F>, out: Element|
                {
                    &&& cx@ == prepared(old(self)@, *id).scope(*id)
                    &&& call_ensures(old(self)@.callers[old(self)@.slot_of(*id)], (&cx,), out)
                    &&& rendered == out.is_some()
                    &&& final(self)@ == prepared(old(self)@, *id).completed(*id, out)
                },
    {
        let slot = self.slot_index(id);
        let _steps = self.ensure_drop_safety(id);
        let ghost dropped = self@;
        self.slots[slot].hooks.reset();
        self.slots[slot].reset_wip_frame();
        self.slots[slot].items.suspended_nodes.clear();
        self.slots[slot].items.tasks.clear();
        self.slots[slot].items.pending_effects.clear();
        proof {
            let now = self.slots@[slot as int]@;
            let was = dropped.slots[slot as int];
            assert(now.items.suspended_nodes =~= Seq::empty());
            assert(now.items.tasks =~= Seq::empty());
            assert(now.items.pending_effects =~= Seq::empty());
            assert(now.frames =~= was.frames.update(was.wip_index(), Seq::empty()));
            assert(now == ready_to_render(was));
            assert(self@.slots =~= dropped.slots.update(slot as int, ready_to_render(was)));
            assert(self@ == prepared(old(self)@, *id));
            lemma_replace_live(dropped, *id, ready_to_render(was));
        }
        let out = (self.callers[slot])(&self.slots[slot]);
        let ghost cx = self.slots@[slot as int];
        let ghost seen = out;
        let rendered = self.complete_render(id, out);
        proof {
            assert(cx@ == prepared(old(self)@, *id).scope(*id));
            assert(call_ensures(old(self)@.callers[old(self)@.slot_of(*id)], (&cx,), seen));
        }
        rendered
    }
}

/// The scopes with the first `consumed[j]` borrowed-properties records of
/// each slot `j` taken off.
pub open spec fn skipped<A, F>(slots: Seq<ScopeView<A, F>>, consumed: Seq<usize>) -> Seq<
    ScopeView<A, F>,
> {
    Seq::new(
        slots.len(),
        |j: int|
            ScopeView {
                items: ItemsView {
                    borrowed_props: slots[j].items.borrowed_props.skip(consumed[j] as int),
                    ..slots[j].items
                },
                ..slots[j]
            },
    )
}

/// True when `consumed` counts, for each slot, no more records than the
/// slot has.
pub open spec fn counts_fit<A, F>(slots: Seq<ScopeView<A, F>>, consumed: Seq<usize>) -> bool {
    &&& consumed.len() == slots.len()
    &&& forall|j: int|
        0 <= j < slots.len() ==> (#[trigger] consumed[j]) <= slots[j].items.borrowed_props.len()
}

impl<C, A, F: FnOnce()> ScopeArena<C, A, F> {
    /// Walks the finalization of `id` without changing a scope: `consumed`
    /// counts the records that the walk has passed in each slot.
    fn resolves_from(&self, id: usize, consumed: &mut Vec<usize>) -> (ok: bool)
        requires
            self@.wf(),
            counts_fit(self@.slots, old(consumed)@),
            forall|f: F| call_requires(f, ()),
        ensures
            counts_fit(self@.slots, final(consumed)@),
            ok == drop_from(skipped(self@.slots, old(consumed)@), self@.live, id).is_some(),
            ok ==> same_props(
                drop_from(skipped(self@.slots, old(consumed)@), self@.live, id).unwrap().0,
                skipped(self@.slots, final(consumed)@),
            ),
        decreases total_props(skipped(self@.slots, old(consumed)@)),
    {
        let ghost slots = self@.slots;
        let ghost live = self@.live;
        let ghost start = skipped(slots, consumed@);
        let slot = match table_get(&self.scopes, id) {
            Some(slot) => *slot,
            None => {
                return false;
            },
        };
        assert(live.contains_key(id));
        while consumed[slot] < self.slots[slot].items.borrowed_props.len()
            invariant
                self@.wf(),
                slots == self@.slots,
                live == self@.live,
                start == skipped(slots, old(consumed)@),
                live.contains_key(id),
                slot == live[id],
                slot < slots.len(),
                slot < self.slots@.len(),
                counts_fit(slots, consumed@),
                forall|f: F| call_requires(f, ()),
                total_props(skipped(slots, consumed@)) <= total_props(start),
                drop_from(start, live, id).is_some() == drop_from(
                    skipped(slots, consumed@),
                    live,
                    id,
                ).is_some(),
                drop_from(start, live, id).is_some() ==> same_props(
                    drop_from(start, live, id).unwrap().0,
                    drop_from(skipped(slots, consumed@), live, id).unwrap().0,
                ),
            decreases total_props(skipped(slots, consumed@)),
        {
            let ghost now = skipped(slots, consumed@);
            let ghost at = consumed@[slot as int];
            let record = &self.slots[slot].items.borrowed_props[consumed[slot]];
            proof {
                assert(now[slot as int].items.borrowed_props.len() > 0);
                assert(now[slot as int].items.borrowed_props[0] == *record);
            }
            let child = match record.associated_scope {
                Some(child) => child,
                None => {
                    return false;
                },
            };
            if record.drop_props.is_none() {
                return false;
            }
            assert(record_ready(*record));
            let passed = consumed[slot] + 1;
            consumed[slot] = passed;
            let ghost popped = now.update(slot as int, without_first_props(now[slot as int]));
            proof {
                assert(slots[slot as int].items.borrowed_props.skip(at as int).drop_first()
                    =~= slots[slot as int].items.borrowed_props.skip(at + 1));
                assert(skipped(slots, consumed@) =~= popped);
                lemma_total_props_update(now, slot as int, without_first_props(now[slot as int]));
            }
            let ghost entered = consumed@;
            let below_ok = self.resolves_from(child.0, consumed);
            if !below_ok {
                return false;
            }
            proof {
                let below = drop_from(popped, live, child.0).unwrap().0;
                let walked = skipped(slots, consumed@);
                lemma_drop_from_shrinks(popped, live, child.0);
                lemma_drop_from_reads_props_only(below, walked, live, id);
                lemma_same_props_same_total(below, walked);
                if drop_from(now, live, id).is_some() {
                    let via_below = drop_from(below, live, id).unwrap().0;
                    let via_walked = drop_from(walked, live, id).unwrap().0;
                    let target = drop_from(start, live, id).unwrap().0;
                    assert forall|j: int| 0 <= j < target.len() implies (#[trigger] target[j]).items.borrowed_props
                        == via_walked[j].items.borrowed_props by {
                        assert(via_below[j].items.borrowed_props == via_walked[j].items.borrowed_props);
                    }
                }
            }
        }
        proof {
            let now = skipped(slots, consumed@);
            assert(now[slot as int].items.borrowed_props.len() == 0);
            let done = drop_from(now, live, id).unwrap().0;
            assert forall|j: int| 0 <= j < done.len() implies (#[trigger] done[j]).items.borrowed_props
                == now[j].items.borrowed_props by {}
            if drop_from(start, live, id).is_some() {
                let target = drop_from(start, live, id).unwrap().0;
                assert forall|j: int| 0 <= j < target.len() implies (#[trigger] target[j]).items.borrowed_props
                    == now[j].items.borrowed_props by {
                    assert(done[j].items.borrowed_props == now[j].items.borrowed_props);
                }
            }
        }
        true
    }

    /// Tells whether the finalization of `id` can run: whether every scope
    /// that the pass would reach is live and every record it would reach
    /// names a child and still holds its drop callback. Nothing is changed.
    ///
    /// The answer is that of `drop_from` for callbacks that can always be
    /// called.
    pub fn can_ensure_drop_safety(&self, id: &ScopeId) -> (ok: bool)
        requires
            self@.wf(),
            forall|f: F| call_requires(f, ()),
        ensures
            ok == drop_from(self@.slots, self@.live, id.0).is_some(),
    {
        let mut consumed: Vec<usize> = Vec::new();
        let mut j: usize = 0;
        while j < self.slots.len()
            invariant
                j <= self.slots@.len(),
                consumed@.len() == j,
                forall|k: int| 0 <= k < j ==> consumed@[k] == 0,
            decreases self.slots@.len() - j,
        {
            consumed.push(0);
            j = j + 1;
        }
        proof {
            assert(skipped(self@.slots, consumed@) =~= self@.slots) by {
                assert forall|k: int| 0 <= k < self@.slots.len() implies skipped(
                    self@.slots,
                    consumed@,
                )[k] == self@.slots[k] by {
                    assert(self@.slots[k].items.borrowed_props.skip(0)
                        =~= self@.slots[k].items.borrowed_props);
                }
            }
        }
        self.resolves_from(id.0, &mut consumed)
    }
}

} // verus!
