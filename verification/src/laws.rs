//! What holds of the arena across its operations.
use vstd::prelude::*;
use crate::nodes::{ScopeId, Element, NodeHandle};
use crate::scope::{ScopeView, ItemsView};
use crate::drop_order::{drop_from, slot_is_idle, lemma_drop_from_frame,
    lemma_finalized_scope_is_clear};
use crate::scopearena::{ArenaView, removed, prepared};

verus! {

/// Creating a scope keeps the arena well-formed.
pub proof fn lemma_creates_keeps_wf<C, A, F>(
    before: ArenaView<C, A, F>,
    after: ArenaView<C, A, F>,
    id: ScopeId,
    caller: C,
    parent: Option<ScopeId>,
    height: u32,
    subtree: u32,
)
    requires
        before.wf(),
        before.counter < usize::MAX,
        before.creates(after, id, caller, parent, height, subtree),
    ensures
        after.wf(),
        !before.contains(id),
        after.contains(id),
        after.slot_of(id) == before.next_slot(),
{
    let slot = before.next_slot();
    assert(!before.live.contains_key(id.0));
    assert forall|other: usize| #[trigger] after.live.contains_key(other) implies {
        &&& after.live[other] < after.slots.len()
        &&& after.slots[after.live[other] as int].our_arena_idx == ScopeId(other)
        &&& after.slots[after.live[other] as int].wf()
        &&& other < after.counter
    } by {
        if other != id.0 {
            assert(before.live.contains_key(other));
            if before.free.len() > 0 {
                assert(before.live[other] != before.free[before.free.len() - 1]);
            }
        } else {
            if before.free.len() > 0 {
                assert(before.free[before.free.len() - 1] < before.slots.len());
            }
        }
    }
    assert forall|i: int| 0 <= i < after.free.len() implies {
        &&& (#[trigger] after.free[i]) < after.slots.len()
        &&& after.slots[after.free[i] as int].is_quiesced()
    } by {
        assert(before.free[i] < before.slots.len());
        if before.free.len() > 0 {
            assert(before.free[i] != before.free[before.free.len() - 1]);
        }
    }
    assert forall|i: int, j: int| 0 <= i < j < after.free.len() implies #[trigger] after.free[i]
        != #[trigger] after.free[j] by {
        assert(before.free[i] != before.free[j]);
    }
    assert forall|other: usize, i: int|
        after.live.contains_key(other) && 0 <= i < after.free.len() implies #[trigger] after.live[other]
        != #[trigger] after.free[i] by {
        if other != id.0 {
            assert(before.live.contains_key(other));
            assert(before.live[other] != before.free[i]);
        } else {
            assert(before.free[i] < before.slots.len());
            if before.free.len() > 0 {
                assert(before.free[i] != before.free[before.free.len() - 1]);
            }
        }
    }
}

/// Removing a live scope keeps the arena well-formed, takes the id out of
/// the live set and leaves the scope's slot as the next to be reused.
pub proof fn lemma_removed_keeps_wf<C, A, F: FnOnce()>(before: ArenaView<C, A, F>, id: ScopeId)
    requires
        before.wf(),
        before.contains(id),
        drop_from(before.slots, before.live, id.0).is_some(),
    ensures
        removed(before, id).wf(),
        !removed(before, id).contains(id),
        removed(before, id).next_slot() == before.slot_of(id),
        removed(before, id).counter == before.counter,
{
    let after = removed(before, id);
    let dropped = drop_from(before.slots, before.live, id.0).unwrap().0;
    let slot = before.live[id.0];
    lemma_drop_from_frame(before.slots, before.live, id.0);
    assert forall|other: usize| #[trigger] after.live.contains_key(other) implies {
        &&& after.live[other] < after.slots.len()
        &&& after.slots[after.live[other] as int].our_arena_idx == ScopeId(other)
        &&& after.slots[after.live[other] as int].wf()
        &&& other < after.counter
    } by {
        assert(before.live.contains_key(other));
        let at = before.live[other] as int;
        if at == slot {
            assert(before.slots[slot as int].our_arena_idx == ScopeId(other));
            assert(before.slots[slot as int].our_arena_idx == id);
        }
        assert(dropped[at] == (ScopeView { items: dropped[at].items, ..before.slots[at] }));
    }
    assert forall|i: int| 0 <= i < after.free.len() implies {
        &&& (#[trigger] after.free[i]) < after.slots.len()
        &&& after.slots[after.free[i] as int].is_quiesced()
    } by {
        if i < before.free.len() {
            let at = before.free[i] as int;
            assert(before.live[id.0] != before.free[i]);
            assert(slot_is_idle(before.live, at)) by {
                assert forall|other: usize| before.live.contains_key(other) implies 
                #[trigger] before.live[other] != at by {
                    assert(before.live[other] != before.free[i]);
                }
            }
            assert(dropped[at] == before.slots[at]);
        } else {
            assert(after.slots[slot as int] == dropped[slot as int].quiesced());
            assert(dropped[slot as int].quiesced().quiesced() =~= dropped[slot as int].quiesced());
        }
    }
    assert forall|i: int, j: int| 0 <= i < j < after.free.len() implies #[trigger] after.free[i]
        != #[trigger] after.free[j] by {
        if j == before.free.len() {
            assert(before.live[id.0] != before.free[i]);
        } else {
            assert(before.free[i] != before.free[j]);
        }
    }
    assert forall|other: usize, i: int|
        after.live.contains_key(other) && 0 <= i < after.free.len() implies #[trigger] after.live[other]
        != #[trigger] after.free[i] by {
        assert(before.live.contains_key(other));
        if i < before.free.len() {
            assert(before.live[other] != before.free[i]);
        } else {
            if before.live[other] == slot {
                assert(before.slots[slot as int].our_arena_idx == ScopeId(other));
                assert(before.slots[slot as int].our_arena_idx == id);
            }
        }
    }
}

/// In a well-formed arena a live id leads to one scope, which carries that
/// id, and two live ids never lead to the same slot.
pub proof fn lemma_live_scopes_unique<C, A, F>(arena: ArenaView<C, A, F>, a: ScopeId, b: ScopeId)
    requires
        arena.wf(),
        arena.contains(a),
        arena.contains(b),
    ensures
        arena.scope(a).our_arena_idx == a,
        arena.scope(b).our_arena_idx == b,
        a != b ==> arena.slot_of(a) != arena.slot_of(b),
        arena.slot_of(a) == arena.slot_of(b) ==> a == b,
{
    assert(arena.live.contains_key(a.0));
    assert(arena.live.contains_key(b.0));
}

/// One operation that creates or removes a scope: `after` is `before`
/// with a scope created, with a live scope removed, or, for the removal of
/// an id that is not live, `before` itself.
pub open spec fn create_or_remove<C, A, F: FnOnce()>(
    before: ArenaView<C, A, F>,
    after: ArenaView<C, A, F>,
) -> bool {
    ||| exists|id: ScopeId, caller: C, parent: Option<ScopeId>, height: u32, subtree: u32|
        before.counter < usize::MAX && #[trigger] before.creates(
            after,
            id,
            caller,
            parent,
            height,
            subtree,
        )
    ||| exists|id: ScopeId|
        before.contains(id) && drop_from(before.slots, before.live, id.0).is_some() && after
            == #[trigger] removed(before, id)
    ||| after == before
}

/// Uniqueness: along any sequence of creations and removals that starts
/// from a well-formed arena, every state is well-formed, so at every point
/// each live id leads to one scope with that id and no two live scopes
/// share a slot.
pub proof fn lemma_uniqueness_along_history<C, A, F: FnOnce()>(
    history: Seq<ArenaView<C, A, F>>,
    at: int,
    a: ScopeId,
    b: ScopeId,
)
    requires
        history.len() > 0,
        history[0].wf(),
        forall|i: int|
            0 <= i < history.len() - 1 ==> create_or_remove(#[trigger] history[i], history[i + 1]),
        0 <= at < history.len(),
        history[at].contains(a),
        history[at].contains(b),
    ensures
        history[at].wf(),
        history[at].scope(a).our_arena_idx == a,
        a != b ==> history[at].slot_of(a) != history[at].slot_of(b),
    decreases at,
{
    if at > 0 {
        let before = history[at - 1];
        let after = history[at];
        assert(create_or_remove(history[at - 1], history[at - 1 + 1]));
        lemma_history_wf(history, at - 1);
        lemma_step_keeps_wf(before, after);
    }
    lemma_live_scopes_unique(history[at], a, b);
}

/// One creation or removal keeps the arena well-formed.
pub proof fn lemma_step_keeps_wf<C, A, F: FnOnce()>(
    before: ArenaView<C, A, F>,
    after: ArenaView<C, A, F>,
)
    requires
        before.wf(),
        create_or_remove(before, after),
    ensures
        after.wf(),
{
    if exists|id: ScopeId, caller: C, parent: Option<ScopeId>, height: u32, subtree: u32|
        before.counter < usize::MAX && #[trigger] before.creates(
            after,
            id,
            caller,
            parent,
            height,
            subtree,
        ) {
        let (id, caller, parent, height, subtree) = choose|
            id: ScopeId,
            caller: C,
            parent: Option<ScopeId>,
            height: u32,
            subtree: u32,
        |
            before.counter < usize::MAX && #[trigger] before.creates(
                after,
                id,
                caller,
                parent,
                height,
                subtree,
            );
        lemma_creates_keeps_wf(before, after, id, caller, parent, height, subtree);
    } else if exists|id: ScopeId|
        before.contains(id) && drop_from(before.slots, before.live, id.0).is_some() && after
            == #[trigger] removed(before, id) {
        let id = choose|id: ScopeId|
            before.contains(id) && drop_from(before.slots, before.live, id.0).is_some() && after
                == #[trigger] removed(before, id);
        lemma_removed_keeps_wf(before, id);
    }
}

/// Every state of a sequence of creations and removals that starts from a
/// well-formed arena is well-formed.
pub proof fn lemma_history_wf<C, A, F: FnOnce()>(history: Seq<ArenaView<C, A, F>>, at: int)
    requires
        history.len() > 0,
        history[0].wf(),
        forall|i: int|
            0 <= i < history.len() - 1 ==> create_or_remove(#[trigger] history[i], history[i + 1]),
        0 <= at < history.len(),
    ensures
        history[at].wf(),
    decreases at,
{
    if at > 0 {
        lemma_history_wf(history, at - 1);
        assert(create_or_remove(history[at - 1], history[at - 1 + 1]));
        lemma_step_keeps_wf(history[at - 1], history[at]);
    }
}

/// Monotonic ids under reuse: a scope created right after the removal of
/// the live scope `a` moves into the slot that `a` had, and its id is
/// greater than `a`.
pub proof fn lemma_reuse_takes_slot_and_greater_id<C, A, F: FnOnce()>(
    before: ArenaView<C, A, F>,
    a: ScopeId,
    after: ArenaView<C, A, F>,
    b: ScopeId,
    caller: C,
    parent: Option<ScopeId>,
    height: u32,
    subtree: u32,
)
    requires
        before.wf(),
        before.contains(a),
        drop_from(before.slots, before.live, a.0).is_some(),
        before.counter < usize::MAX,
        removed(before, a).creates(after, b, caller, parent, height, subtree),
    ensures
        after.contains(b),
        !after.contains(a),
        after.slot_of(b) == before.slot_of(a),
        b.0 > a.0,
        after.scope(b).our_arena_idx == b,
{
    lemma_removed_keeps_wf(before, a);
    lemma_creates_keeps_wf(removed(before, a), after, b, caller, parent, height, subtree);
    assert(before.live.contains_key(a.0));
}

/// Frame swap: after a render that produced a tree, the finished frame
/// holds exactly that tree and is the frame that was being written before,
/// not the one that was finished before; the frame that was finished before
/// is untouched and is now the one to be written. After a render that
/// produced no tree, nothing has changed.
pub proof fn lemma_frame_swap<C, A, F>(arena: ArenaView<C, A, F>, id: ScopeId, out: Element)
    requires
        arena.wf(),
        arena.contains(id),
    ensures
        out.is_none() ==> arena.completed(id, out) == arena,
        out.is_some() ==> {
            let before = arena.scope(id);
            let after = arena.completed(id, out).scope(id);
            &&& after.fin_frame() == seq![out.unwrap().node]
            &&& after.fin_frame()[0] == out.unwrap().node
            &&& after.fin_index() == before.wip_index()
            &&& after.fin_index() != before.fin_index()
            &&& after.wip_index() == before.fin_index()
            &&& after.wip_frame() == before.fin_frame()
            &&& after.hooks == before.hooks
        },
{
    assert(arena.live.contains_key(id.0));
}

/// Frame swap across a whole render: when the callback produced a tree,
/// the finished frame afterwards holds exactly that tree and is the other
/// of the two frames than before; when it produced none, the finished
/// frame is the same frame with the same content as before.
pub proof fn lemma_render_swaps_frames<C, A, F: FnOnce()>(
    arena: ArenaView<C, A, F>,
    id: ScopeId,
    out: Element,
)
    requires
        arena.wf(),
        arena.contains(id),
        drop_from(arena.slots, arena.live, id.0).is_some(),
    ensures
        ({
            let before = arena.scope(id);
            let after = prepared(arena, id).completed(id, out).scope(id);
            &&& out.is_some() ==> {
                &&& after.fin_frame() == seq![out.unwrap().node]
                &&& after.fin_index() == before.wip_index()
                &&& after.fin_index() != before.fin_index()
            }
            &&& out.is_none() ==> {
                &&& after.fin_frame() == before.fin_frame()
                &&& after.fin_index() == before.fin_index()
            }
        }),
{
    lemma_drop_from_frame(arena.slots, arena.live, id.0);
    let dropped = drop_from(arena.slots, arena.live, id.0).unwrap().0;
    let at = arena.slot_of(id);
    assert(arena.live.contains_key(id.0));
    assert(dropped[at] == (ScopeView { items: dropped[at].items, ..arena.slots[at] }));
}

/// Hooks survive a render: whatever the callback returns, the scope has
/// the hook values it had before, in the same order, and the cursor is back
/// at the start.
pub proof fn lemma_render_keeps_hooks<C, A, F: FnOnce()>(
    arena: ArenaView<C, A, F>,
    id: ScopeId,
    out: Element,
)
    requires
        arena.wf(),
        arena.contains(id),
        drop_from(arena.slots, arena.live, id.0).is_some(),
    ensures
        prepared(arena, id).completed(id, out).scope(id).hooks == arena.scope(id).hooks,
        prepared(arena, id).completed(id, out).scope(id).hook_cursor == 0,
{
    lemma_drop_from_frame(arena.slots, arena.live, id.0);
    let dropped = drop_from(arena.slots, arena.live, id.0).unwrap().0;
    let at = arena.slot_of(id);
    assert(arena.live.contains_key(id.0));
    assert(dropped[at] == (ScopeView { items: dropped[at].items, ..arena.slots[at] }));
}

/// Nothing refers into a frame when its callback runs: the scope that a
/// render callback sees has no listener, borrowed property, suspended node,
/// task or effect, and the frame it is to write is empty.
pub proof fn lemma_prepared_scope_is_clear<C, A, F: FnOnce()>(arena: ArenaView<C, A, F>, id: ScopeId)
    requires
        arena.wf(),
        arena.contains(id),
        drop_from(arena.slots, arena.live, id.0).is_some(),
    ensures
        prepared(arena, id).scope(id).items == ItemsView::<F>::empty(),
        prepared(arena, id).scope(id).wip_frame().len() == 0,
        prepared(arena, id).scope(id).fin_frame() == arena.scope(id).fin_frame(),
{
    lemma_drop_from_frame(arena.slots, arena.live, id.0);
    lemma_finalized_scope_is_clear(arena.slots, arena.live, id.0);
    let dropped = drop_from(arena.slots, arena.live, id.0).unwrap().0;
    let at = arena.slot_of(id);
    assert(arena.live.contains_key(id.0));
    assert(dropped[at] == (ScopeView { items: dropped[at].items, ..arena.slots[at] }));
    let items = prepared(arena, id).scope(id).items;
    assert(items.listeners =~= Seq::empty());
    assert(items.borrowed_props =~= Seq::empty());
}

/// Placeholder: right after its creation a scope has a head in both
/// frames, and each head is the empty text node.
pub proof fn lemma_fresh_scope_has_placeholders<C, A, F>(
    before: ArenaView<C, A, F>,
    after: ArenaView<C, A, F>,
    id: ScopeId,
    caller: C,
    parent: Option<ScopeId>,
    height: u32,
    subtree: u32,
)
    requires
        before.wf(),
        before.counter < usize::MAX,
        before.creates(after, id, caller, parent, height, subtree),
    ensures
        after.contains(id),
        after.scope(id).wip_frame().len() == 1,
        after.scope(id).wip_frame()[0].is_empty_text(),
        after.scope(id).fin_frame().len() == 1,
        after.scope(id).fin_frame()[0].is_empty_text(),
{
    lemma_creates_keeps_wf(before, after, id, caller, parent, height, subtree);
}

/// Slot recycling: once a reserved key is released it is held by no
/// reservation, and it is the key under which the next reservation is
/// stored; the other reservations are as they were.
pub proof fn lemma_released_key_is_reused<C, A, F>(
    held: ArenaView<C, A, F>,
    key: usize,
    node: NodeHandle,
)
    requires
        held.reserved.contains_key(key),
    ensures
        !held.releases(key).reserved.contains_key(key),
        held.releases(key).vacant_key == key,
        held.releases(key).reserves(node).reserved == held.reserved.insert(key, node),
        held.releases(key).reserves(node).reserved[key] == node,
{
    assert(held.reserved.remove(key).insert(key, node) =~= held.reserved.insert(key, node));
}

} // verus!
