//! The order in which borrowed state is finalized before a frame is reused.
//!
//! A scope's tree may lend data to the properties of a child scope. Before
//! the lender's memory can be invalidated, the borrower is finalized first:
//! for each borrowed-properties record, in the order of registration, the
//! child scope is finalized (depth first), then the record's drop callback
//! runs; only after the last record does the scope release its listeners.
use vstd::prelude::*;
use crate::nodes::ScopeId;
use crate::scope::{ScopeView, ItemsView, BorrowedProps};

verus! {

/// One observable step of a finalization pass.
#[derive(Clone, Copy, Debug, PartialEq, Eq, Structural)]
pub enum DropStep {
    /// The drop callback of a record that refers to this child scope ran.
    PropsDropped(ScopeId),
    /// This scope released its listeners.
    ListenersReleased(ScopeId),
}

/// The number of borrowed-properties records in all the scopes of `slots`.
pub open spec fn total_props<A, F>(slots: Seq<ScopeView<A, F>>) -> nat
    decreases slots.len(),
{
    if slots.len() == 0 {
        0
    } else {
        total_props(slots.drop_last()) + slots.last().items.borrowed_props.len()
    }
}

/// The scope without its first borrowed-properties record.
pub open spec fn without_first_props<A, F>(scope: ScopeView<A, F>) -> ScopeView<A, F> {
    ScopeView {
        items: ItemsView { borrowed_props: scope.items.borrowed_props.drop_first(), ..scope.items },
        ..scope
    }
}

/// The scope without its listeners.
pub open spec fn without_listeners<A, F>(scope: ScopeView<A, F>) -> ScopeView<A, F> {
    ScopeView { items: ItemsView { listeners: Seq::empty(), ..scope.items }, ..scope }
}

/// True when the record names a child and still holds a drop callback that
/// can be called.
pub open spec fn record_ready<F: FnOnce()>(record: BorrowedProps<F>) -> bool {
    &&& record.associated_scope.is_some()
    &&& record.drop_props.is_some()
    &&& call_requires(record.drop_props.unwrap(), ())
}

/// The outcome of finalizing the scope `id`: the slots afterwards and the
/// steps in the order they happen. `None` when the pass meets a scope that
/// is not live, or a record that names no child or has lost its callback.
///
/// `live` maps the id of each live scope to its slot.
pub open spec fn drop_from<A, F: FnOnce()>(
    slots: Seq<ScopeView<A, F>>,
    live: Map<usize, usize>,
    id: usize,
) -> Option<(Seq<ScopeView<A, F>>, Seq<DropStep>)>
    decreases total_props(slots),
{
    if !live.contains_key(id) || live[id] >= slots.len() {
        None
    } else {
        let slot = live[id] as int;
        let records = slots[slot].items.borrowed_props;
        if records.len() == 0 {
            Some(
                (
                    slots.update(slot, without_listeners(slots[slot])),
                    seq![DropStep::ListenersReleased(ScopeId(id))],
                ),
            )
        } else if !record_ready(records[0]) {
            None
        } else {
            let child = records[0].associated_scope.unwrap();
            let popped = slots.update(slot, without_first_props(slots[slot]));
            if total_props(popped) < total_props(slots) {
                match drop_from(popped, live, child.0) {
                    None => None,
                    Some((below, below_steps)) => {
                        if total_props(below) < total_props(slots) {
                            match drop_from(below, live, id) {
                                None => None,
                                Some((done, rest)) => Some(
                                    (
                                        done,
                                        below_steps.push(DropStep::PropsDropped(child)) + rest,
                                    ),
                                ),
                            }
                        } else {
                            None
                        }
                    },
                }
            } else {
                None
            }
        }
    }
}

/// Replacing one scope changes the record count by the difference of the
/// two scopes' counts.
pub proof fn lemma_total_props_update<A, F>(
    slots: Seq<ScopeView<A, F>>,
    at: int,
    scope: ScopeView<A, F>,
)
    requires
        0 <= at < slots.len(),
    ensures
        total_props(slots.update(at, scope)) + slots[at].items.borrowed_props.len() == total_props(
            slots,
        ) + scope.items.borrowed_props.len(),
    decreases slots.len(),
{
    let updated = slots.update(at, scope);
    if at == slots.len() - 1 {
        assert(updated.drop_last() =~= slots.drop_last());
    } else {
        assert(updated.drop_last() =~= slots.drop_last().update(at, scope));
        lemma_total_props_update(slots.drop_last(), at, scope);
    }
}

/// A finalization pass keeps the number of slots and never adds a record.
pub proof fn lemma_drop_from_shrinks<A, F: FnOnce()>(
    slots: Seq<ScopeView<A, F>>,
    live: Map<usize, usize>,
    id: usize,
)
    requires
        drop_from(slots, live, id).is_some(),
    ensures
        drop_from(slots, live, id).unwrap().0.len() == slots.len(),
        total_props(drop_from(slots, live, id).unwrap().0) <= total_props(slots),
    decreases total_props(slots),
{
    let slot = live[id] as int;
    let records = slots[slot].items.borrowed_props;
    if records.len() == 0 {
        lemma_total_props_update(slots, slot, without_listeners(slots[slot]));
    } else {
        let child = records[0].associated_scope.unwrap();
        let popped = slots.update(slot, without_first_props(slots[slot]));
        let (below, below_steps) = drop_from(popped, live, child.0).unwrap();
        lemma_drop_from_shrinks(popped, live, child.0);
        lemma_drop_from_shrinks(below, live, id);
    }
}

/// True when no live id leads to the slot.
pub open spec fn slot_is_idle(live: Map<usize, usize>, slot: int) -> bool {
    forall|id: usize| live.contains_key(id) ==> #[trigger] live[id] != slot
}

/// A finalization pass changes nothing but items, and only in slots that a
/// live id leads to.
pub proof fn lemma_drop_from_frame<A, F: FnOnce()>(
    slots: Seq<ScopeView<A, F>>,
    live: Map<usize, usize>,
    id: usize,
)
    requires
        drop_from(slots, live, id).is_some(),
    ensures
        drop_from(slots, live, id).unwrap().0.len() == slots.len(),
        forall|j: int|
            0 <= j < slots.len() ==> (#[trigger] drop_from(slots, live, id).unwrap().0[j]) == (
            ScopeView { items: drop_from(slots, live, id).unwrap().0[j].items, ..slots[j] }),
        forall|j: int|
            0 <= j < slots.len() && slot_is_idle(live, j) ==> (#[trigger] drop_from(
                slots,
                live,
                id,
            ).unwrap().0[j]) == slots[j],
    decreases total_props(slots),
{
    let slot = live[id] as int;
    let records = slots[slot].items.borrowed_props;
    let done = drop_from(slots, live, id).unwrap().0;
    if records.len() == 0 {
    } else {
        let child = records[0].associated_scope.unwrap();
        let popped = slots.update(slot, without_first_props(slots[slot]));
        let below = drop_from(popped, live, child.0).unwrap().0;
        lemma_drop_from_frame(popped, live, child.0);
        lemma_drop_from_frame(below, live, id);
        assert forall|j: int| 0 <= j < slots.len() implies (#[trigger] done[j]) == (ScopeView {
            items: done[j].items,
            ..slots[j]
        }) by {
            assert(below[j] == (ScopeView { items: below[j].items, ..popped[j] }));
        }
        assert forall|j: int| 0 <= j < slots.len() && slot_is_idle(live, j) implies (
        #[trigger] done[j]) == slots[j] by {
            assert(live[id] != j);
            assert(below[j] == popped[j]);
        }
    }
}

/// Children come first: the pass ends with the scope releasing its own
/// listeners, and that is the only step when the scope has no
/// borrowed-properties record. When it has one, the pass begins with the
/// whole finalization of the child that the first record names, which the
/// drop of that record's properties follows at once; the scope's own
/// listeners come later.
pub proof fn lemma_children_first<A, F: FnOnce()>(
    slots: Seq<ScopeView<A, F>>,
    live: Map<usize, usize>,
    id: usize,
)
    requires
        drop_from(slots, live, id).is_some(),
    ensures
        ({
            let steps = drop_from(slots, live, id).unwrap().1;
            let scope = slots[live[id] as int];
            let records = scope.items.borrowed_props;
            &&& steps.len() > 0
            &&& steps.last() == DropStep::ListenersReleased(ScopeId(id))
            &&& records.len() == 0 ==> steps.len() == 1
            &&& records.len() > 0 ==> {
                let child = records[0].associated_scope.unwrap();
                let popped = slots.update(live[id] as int, without_first_props(scope));
                let below = drop_from(popped, live, child.0);
                &&& below.is_some()
                &&& below.unwrap().1.len() > 0
                &&& below.unwrap().1.last() == DropStep::ListenersReleased(child)
                &&& below.unwrap().1.len() + 1 < steps.len()
                &&& steps.subrange(0, below.unwrap().1.len() as int) == below.unwrap().1
                &&& steps[below.unwrap().1.len() as int] == DropStep::PropsDropped(child)
            }
        }),
    decreases total_props(slots),
{
    let slot = live[id] as int;
    let records = slots[slot].items.borrowed_props;
    let steps = drop_from(slots, live, id).unwrap().1;
    if records.len() > 0 {
        let child = records[0].associated_scope.unwrap();
        let popped = slots.update(slot, without_first_props(slots[slot]));
        let (below, below_steps) = drop_from(popped, live, child.0).unwrap();
        let (done, rest) = drop_from(below, live, id).unwrap();
        lemma_children_first(popped, live, child.0);
        lemma_children_first(below, live, id);
        assert(steps == below_steps.push(DropStep::PropsDropped(child)) + rest);
        assert(steps.subrange(0, below_steps.len() as int) =~= below_steps);
    }
}

/// After its finalization a scope has no borrowed-properties record and
/// no listener left.
pub proof fn lemma_finalized_scope_is_clear<A, F: FnOnce()>(
    slots: Seq<ScopeView<A, F>>,
    live: Map<usize, usize>,
    id: usize,
)
    requires
        drop_from(slots, live, id).is_some(),
    ensures
        drop_from(slots, live, id).unwrap().0[live[id] as int].items.borrowed_props.len() == 0,
        drop_from(slots, live, id).unwrap().0[live[id] as int].items.listeners.len() == 0,
    decreases total_props(slots),
{
    let slot = live[id] as int;
    let records = slots[slot].items.borrowed_props;
    if records.len() > 0 {
        let child = records[0].associated_scope.unwrap();
        let popped = slots.update(slot, without_first_props(slots[slot]));
        let below = drop_from(popped, live, child.0).unwrap().0;
        lemma_finalized_scope_is_clear(below, live, id);
    }
}

/// True when the two sequences of scopes have the same borrowed-properties
/// records, slot by slot.
pub open spec fn same_props<A, F>(a: Seq<ScopeView<A, F>>, b: Seq<ScopeView<A, F>>) -> bool {
    &&& a.len() == b.len()
    &&& forall|j: int|
        0 <= j < a.len() ==> (#[trigger] a[j]).items.borrowed_props == b[j].items.borrowed_props
}

/// Scopes with the same records have the same number of records.
pub proof fn lemma_same_props_same_total<A, F>(a: Seq<ScopeView<A, F>>, b: Seq<ScopeView<A, F>>)
    requires
        same_props(a, b),
    ensures
        total_props(a) == total_props(b),
    decreases a.len(),
{
    if a.len() > 0 {
        assert(a[a.len() - 1].items.borrowed_props == b[a.len() - 1].items.borrowed_props);
        assert forall|j: int| 0 <= j < a.drop_last().len() implies (#[trigger] a.drop_last()[j]).items.borrowed_props
            == b.drop_last()[j].items.borrowed_props by {
            assert(a[j].items.borrowed_props == b[j].items.borrowed_props);
        }
        lemma_same_props_same_total(a.drop_last(), b.drop_last());
    }
}

/// Whether a finalization pass succeeds, which steps it takes and which
/// records it leaves depend on the borrowed-properties records alone.
pub proof fn lemma_drop_from_reads_props_only<A, F: FnOnce()>(
    a: Seq<ScopeView<A, F>>,
    b: Seq<ScopeView<A, F>>,
    live: Map<usize, usize>,
    id: usize,
)
    requires
        same_props(a, b),
    ensures
        drop_from(a, live, id).is_some() == drop_from(b, live, id).is_some(),
        drop_from(a, live, id).is_some() ==> {
            &&& same_props(drop_from(a, live, id).unwrap().0, drop_from(b, live, id).unwrap().0)
            &&& drop_from(a, live, id).unwrap().1 == drop_from(b, live, id).unwrap().1
        },
    decreases total_props(a),
{
    lemma_same_props_same_total(a, b);
    if live.contains_key(id) && live[id] < a.len() {
        let slot = live[id] as int;
        assert(a[slot].items.borrowed_props == b[slot].items.borrowed_props);
        let records = a[slot].items.borrowed_props;
        if records.len() == 0 {
            let ra = a.update(slot, without_listeners(a[slot]));
            let rb = b.update(slot, without_listeners(b[slot]));
            assert forall|j: int| 0 <= j < ra.len() implies (#[trigger] ra[j]).items.borrowed_props
                == rb[j].items.borrowed_props by {
                assert(a[j].items.borrowed_props == b[j].items.borrowed_props);
            }
        } else if record_ready(records[0]) {
            let child = records[0].associated_scope.unwrap();
            let pa = a.update(slot, without_first_props(a[slot]));
            let pb = b.update(slot, without_first_props(b[slot]));
            assert forall|j: int| 0 <= j < pa.len() implies (#[trigger] pa[j]).items.borrowed_props
                == pb[j].items.borrowed_props by {
                assert(a[j].items.borrowed_props == b[j].items.borrowed_props);
            }
            lemma_same_props_same_total(pa, pb);
            if total_props(pa) < total_props(a) {
                lemma_drop_from_reads_props_only(pa, pb, live, child.0);
                if drop_from(pa, live, child.0).is_some() {
                    let below_a = drop_from(pa, live, child.0).unwrap().0;
                    let below_b = drop_from(pb, live, child.0).unwrap().0;
                    lemma_same_props_same_total(below_a, below_b);
                    if total_props(below_a) < total_props(a) {
                        lemma_drop_from_reads_props_only(below_a, below_b, live, id);
                    }
                }
            }
        }
    }
}

} // verus!
