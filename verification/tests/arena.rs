use std::cell::{Cell, RefCell};
use std::rc::Rc;

use futures_channel::mpsc::unbounded;
use scope_arena::drop_order::DropStep;
use scope_arena::nodes::{Element, ElementId, NodeHandle, NodeLink, SchedulerMsg, ScopeId, VNode, VText};
use scope_arena::scope::{BorrowedProps, Listener, Scope};
use scope_arena::scopearena::{Heuristic, ScopeArena};

type Callback = Box<dyn FnOnce()>;
type Render = Box<dyn Fn(&Scope<u32, Callback>) -> Element>;
type Arena = ScopeArena<Render, u32, Callback>;

fn arena() -> Arena {
    let (sender, _receiver) = unbounded::<SchedulerMsg>();
    ScopeArena::new(sender)
}

fn text_of(node: &VNode) -> String {
    match node {
        VNode::Text(text) => text.text.clone(),
        _ => panic!("not a text node"),
    }
}

fn renders(text: &'static str) -> Render {
    Box::new(move |scope: &Scope<u32, Callback>| {
        Some(NodeLink { scope_id: Some(scope.our_arena_idx), node: VNode::text(text) })
    })
}

fn renders_nothing() -> Render {
    Box::new(|_scope: &Scope<u32, Callback>| None)
}

fn empty_text() -> VNode {
    VNode::Text(VText { dom_id: None, is_static: false, text: String::new() })
}

struct LogOnDrop {
    log: Rc<RefCell<Vec<String>>>,
    line: String,
}

impl Drop for LogOnDrop {
    fn drop(&mut self) {
        self.log.borrow_mut().push(self.line.clone());
    }
}

fn logs(log: &Rc<RefCell<Vec<String>>>, line: &str) -> Callback {
    let log = log.clone();
    let line = line.to_string();
    Box::new(move || log.borrow_mut().push(line))
}

fn listener(log: &Rc<RefCell<Vec<String>>>, line: &str) -> Listener<Callback> {
    let guard = LogOnDrop { log: log.clone(), line: line.to_string() };
    Listener {
        event: "click".to_string(),
        mounted_node: None,
        callback: Some(Box::new(move || {
            let _held = &guard;
        })),
    }
}

#[test]
fn new_arena_is_empty() {
    let arena = arena();
    assert!(arena.get_scope(&ScopeId(0)).is_none());
    assert_eq!(arena.get_scope_raw(&ScopeId(0)), None);
    assert_eq!(arena.get_element(ElementId(0)), None);
}

#[test]
fn ids_start_at_zero_and_grow() {
    let mut arena = arena();
    let a = arena.new_with_key(1, renders("a"), None, 0, 0);
    let b = arena.new_with_key(1, renders("b"), Some(a), 1, 0);
    let c = arena.new_with_key(2, renders("c"), Some(b), 2, 5);
    assert_eq!(a, ScopeId(0));
    assert_eq!(b, ScopeId(1));
    assert_eq!(c, ScopeId(2));
    let scope = arena.get_scope(&c).unwrap();
    assert_eq!(scope.our_arena_idx, c);
    assert_eq!(scope.parent_scope, Some(b));
    assert_eq!(scope.height, 2);
    assert_eq!(scope.subtree, 5);
    assert!(!scope.is_subtree_root);
    assert_eq!(scope.generation, 0);
}

#[test]
fn live_scopes_have_their_own_slots() {
    let mut arena = arena();
    let a = arena.new_with_key(1, renders("a"), None, 0, 0);
    let b = arena.new_with_key(1, renders("b"), None, 0, 0);
    let c = arena.new_with_key(1, renders("c"), None, 0, 0);
    assert_eq!(arena.try_remove(&b), Some(()));
    let d = arena.new_with_key(1, renders("d"), None, 0, 0);
    let slots = [
        arena.get_scope_raw(&a).unwrap(),
        arena.get_scope_raw(&c).unwrap(),
        arena.get_scope_raw(&d).unwrap(),
    ];
    assert_ne!(slots[0], slots[1]);
    assert_ne!(slots[0], slots[2]);
    assert_ne!(slots[1], slots[2]);
    assert_eq!(arena.get_scope(&a).unwrap().our_arena_idx, a);
    assert_eq!(arena.get_scope(&c).unwrap().our_arena_idx, c);
    assert_eq!(arena.get_scope(&d).unwrap().our_arena_idx, d);
    assert!(arena.get_scope(&b).is_none());
}

#[test]
fn removed_slot_is_reused_under_a_greater_id() {
    let mut arena = arena();
    let a = arena.new_with_key(1, renders("a"), None, 0, 0);
    let slot = arena.get_scope_raw(&a).unwrap();
    assert_eq!(arena.try_remove(&a), Some(()));
    let b = arena.new_with_key(1, renders("b"), None, 3, 4);
    assert!(b.0 > a.0);
    assert_eq!(b, ScopeId(1));
    assert_eq!(arena.get_scope_raw(&b), Some(slot));
    assert_eq!(arena.get_scope_raw(&a), None);
    let scope = arena.get_scope(&b).unwrap();
    assert_eq!(scope.our_arena_idx, b);
    assert_eq!(scope.height, 3);
    assert_eq!(scope.subtree, 4);
}

#[test]
fn last_retired_slot_is_reused_first() {
    let mut arena = arena();
    let a = arena.new_with_key(1, renders("a"), None, 0, 0);
    let b = arena.new_with_key(1, renders("b"), None, 0, 0);
    let slot_a = arena.get_scope_raw(&a).unwrap();
    let slot_b = arena.get_scope_raw(&b).unwrap();
    arena.try_remove(&a);
    arena.try_remove(&b);
    let c = arena.new_with_key(1, renders("c"), None, 0, 0);
    let d = arena.new_with_key(1, renders("d"), None, 0, 0);
    let e = arena.new_with_key(1, renders("e"), None, 0, 0);
    assert_eq!(arena.get_scope_raw(&c), Some(slot_b));
    assert_eq!(arena.get_scope_raw(&d), Some(slot_a));
    assert_eq!(arena.get_scope_raw(&e), Some(2));
}

#[test]
fn fresh_scope_has_placeholders() {
    let mut arena = arena();
    let a = arena.new_with_key(1, renders("a"), None, 0, 0);
    assert_eq!(*arena.wip_head(&a), empty_text());
    assert_eq!(*arena.fin_head(&a), empty_text());
    assert_eq!(*arena.root_node(&a), empty_text());
    let scope = arena.get_scope(&a).unwrap();
    assert_eq!(scope.frames[0].len(), 1);
    assert_eq!(scope.frames[1].len(), 1);
    assert_eq!(scope.hooks.len(), 0);
    assert!(scope.items.listeners.is_empty());
    assert!(scope.items.borrowed_props.is_empty());
}

#[test]
fn reused_scope_has_placeholders() {
    let mut arena = arena();
    let a = arena.new_with_key(1, renders("a"), None, 0, 0);
    assert!(arena.run_scope(&a));
    arena.get_scope_mut(&a).unwrap().hooks.push_hook(9);
    arena.try_remove(&a);
    let b = arena.new_with_key(1, renders("b"), None, 0, 0);
    assert_eq!(*arena.wip_head(&b), empty_text());
    assert_eq!(*arena.fin_head(&b), empty_text());
    let scope = arena.get_scope(&b).unwrap();
    assert_eq!(scope.generation, 0);
    assert_eq!(scope.hooks.len(), 0);
    assert_eq!(scope.frames[0].len(), 1);
    assert_eq!(scope.frames[1].len(), 1);
}

#[test]
fn heuristic_is_read_at_creation() {
    let mut arena = arena();
    arena.heuristics.insert(7, Heuristic { hook_arena_size: 4, node_arena_size: 16 });
    let a = arena.new_with_key(7, renders("a"), None, 0, 0);
    let scope = arena.get_scope(&a).unwrap();
    assert!(scope.hooks.vals.capacity() >= 4);
    assert!(scope.frames[0].nodes.capacity() >= 16);
    assert!(scope.frames[1].nodes.capacity() >= 16);
    assert_eq!(*arena.fin_head(&a), empty_text());
}

#[test]
fn end_to_end() {
    let mut arena = arena();
    let say = Rc::new(Cell::new("hello"));
    let said = say.clone();
    let render: Render = Box::new(move |scope: &Scope<u32, Callback>| {
        Some(NodeLink { scope_id: Some(scope.our_arena_idx), node: VNode::text(said.get()) })
    });
    let a = arena.new_with_key(1, render, None, 0, 0);
    assert!(arena.run_scope(&a));
    assert_eq!(text_of(arena.fin_head(&a)), "hello");
    let held_hello = arena.get_scope(&a).unwrap().fin_slot();

    say.set("world");
    assert!(arena.run_scope(&a));
    assert_eq!(text_of(arena.fin_head(&a)), "world");
    assert_eq!(text_of(arena.root_node(&a)), "world");
    assert_ne!(arena.get_scope(&a).unwrap().fin_slot(), held_hello);
    assert_eq!(arena.get_scope(&a).unwrap().wip_slot(), held_hello);
    assert_eq!(text_of(arena.wip_head(&a)), "hello");

    assert!(arena.run_scope(&a));
    assert_eq!(arena.get_scope(&a).unwrap().fin_slot(), held_hello);
    assert_eq!(arena.get_scope(&a).unwrap().frames[held_hello].len(), 1);
    assert_eq!(text_of(arena.fin_head(&a)), "world");

    assert_eq!(arena.try_remove(&a), Some(()));
    assert!(arena.get_scope(&a).is_none());
    assert_eq!(arena.try_remove(&a), None);

    let b = arena.new_with_key(1, renders("again"), None, 0, 0);
    assert_ne!(b, a);
    assert_eq!(b, ScopeId(1));
    assert_eq!(arena.get_scope_raw(&b), Some(0));
}

#[test]
fn render_swaps_frames() {
    let mut arena = arena();
    let a = arena.new_with_key(1, renders("first"), None, 0, 0);
    let fin_before = arena.get_scope(&a).unwrap().fin_slot();
    let wip_before = arena.get_scope(&a).unwrap().wip_slot();
    assert_eq!((wip_before, fin_before), (0, 1));
    assert!(arena.run_scope(&a));
    let scope = arena.get_scope(&a).unwrap();
    assert_eq!(scope.fin_slot(), wip_before);
    assert_eq!(scope.wip_slot(), fin_before);
    assert_eq!(scope.generation, 1);
    assert_eq!(scope.frames[wip_before].len(), 1);
    assert_eq!(text_of(arena.fin_head(&a)), "first");
    assert_eq!(*arena.wip_head(&a), empty_text());
}

#[test]
fn render_without_tree_changes_nothing_finished() {
    let mut arena = arena();
    let on = Rc::new(Cell::new(true));
    let seen = on.clone();
    let render: Render = Box::new(move |scope: &Scope<u32, Callback>| {
        if seen.get() {
            Some(NodeLink { scope_id: Some(scope.our_arena_idx), node: VNode::text("shown") })
        } else {
            None
        }
    });
    let a = arena.new_with_key(1, render, None, 0, 0);
    assert!(arena.run_scope(&a));
    let fin_before = arena.get_scope(&a).unwrap().fin_slot();
    on.set(false);
    assert!(!arena.run_scope(&a));
    let scope = arena.get_scope(&a).unwrap();
    assert_eq!(scope.fin_slot(), fin_before);
    assert_eq!(scope.generation, 1);
    assert_eq!(scope.wip_frame().len(), 0);
    assert_eq!(text_of(arena.fin_head(&a)), "shown");
}

#[test]
fn complete_render_stores_the_tree() {
    let mut arena = arena();
    let a = arena.new_with_key(1, renders_nothing(), None, 0, 0);
    assert!(!arena.complete_render(&a, None));
    assert_eq!(*arena.fin_head(&a), empty_text());
    let link = NodeLink { scope_id: Some(a), node: VNode::text("given") };
    assert!(arena.complete_render(&a, Some(link)));
    assert_eq!(text_of(arena.fin_head(&a)), "given");
    assert_eq!(arena.get_scope(&a).unwrap().fin_frame().len(), 1);
    assert_eq!(arena.get_scope(&a).unwrap().generation, 1);
}

#[test]
fn generation_wraps_and_still_swaps() {
    let mut arena = arena();
    let a = arena.new_with_key(1, renders("x"), None, 0, 0);
    arena.get_scope_mut(&a).unwrap().generation = u32::MAX;
    assert_eq!(arena.get_scope(&a).unwrap().wip_slot(), 1);
    assert_eq!(arena.get_scope(&a).unwrap().fin_slot(), 0);
    assert!(arena.run_scope(&a));
    let scope = arena.get_scope(&a).unwrap();
    assert_eq!(scope.generation, 0);
    assert_eq!(scope.fin_slot(), 1);
    assert_eq!(text_of(arena.fin_head(&a)), "x");
}

#[test]
fn hooks_survive_renders() {
    let mut arena = arena();
    let a = arena.new_with_key(1, renders("a"), None, 0, 0);
    {
        let scope = arena.get_scope_mut(&a).unwrap();
        scope.hooks.push_hook(10);
        scope.hooks.push_hook(20);
        assert_eq!(scope.hooks.next(), Some(&mut 10));
        assert_eq!(scope.hooks.cur_idx(), 1);
    }
    assert!(arena.run_scope(&a));
    let scope = arena.get_scope_mut(&a).unwrap();
    assert_eq!(scope.hooks.len(), 2);
    assert_eq!(scope.hooks.cur_idx(), 0);
    assert_eq!(scope.hooks.next(), Some(&mut 10));
    assert_eq!(scope.hooks.next(), Some(&mut 20));
    assert_eq!(scope.hooks.next(), None);
}

#[test]
fn render_sees_the_prepared_scope() {
    let mut arena = arena();
    let seen = Rc::new(RefCell::new(Vec::new()));
    let sink = seen.clone();
    let render: Render = Box::new(move |scope: &Scope<u32, Callback>| {
        sink.borrow_mut().push((
            scope.hooks.cur_idx(),
            scope.hooks.len(),
            scope.wip_frame().len(),
            scope.items.tasks.len(),
            scope.items.pending_effects.len(),
            scope.items.suspended_nodes.len(),
            scope.items.listeners.len(),
        ));
        Some(NodeLink { scope_id: Some(scope.our_arena_idx), node: VNode::text("a") })
    });
    let a = arena.new_with_key(1, render, None, 0, 0);
    let log = Rc::new(RefCell::new(Vec::new()));
    {
        let scope = arena.get_scope_mut(&a).unwrap();
        scope.hooks.push_hook(1);
        scope.hooks.next();
        scope.items.tasks.push(logs(&log, "task"));
        scope.items.pending_effects.push(logs(&log, "effect"));
        scope.items.suspended_nodes.push(3);
        scope.items.listeners.push(listener(&log, "listener"));
    }
    assert!(arena.run_scope(&a));
    assert_eq!(*seen.borrow(), vec![(0, 1, 0, 0, 0, 0, 0)]);
    assert_eq!(*log.borrow(), vec!["listener".to_string()]);
}

#[test]
fn children_are_finalized_before_parents() {
    let mut arena = arena();
    let log = Rc::new(RefCell::new(Vec::new()));
    let p = arena.new_with_key(1, renders("p"), None, 0, 0);
    let c = arena.new_with_key(2, renders("c"), Some(p), 1, 0);
    let g = arena.new_with_key(3, renders("g"), Some(c), 2, 0);
    {
        let scope = arena.get_scope_mut(&p).unwrap();
        scope.items.listeners.push(listener(&log, "listeners of p"));
        scope.items.borrowed_props.push(BorrowedProps {
            associated_scope: Some(c),
            drop_props: Some(logs(&log, "props of c")),
        });
    }
    {
        let scope = arena.get_scope_mut(&c).unwrap();
        scope.items.listeners.push(listener(&log, "listeners of c"));
        scope.items.borrowed_props.push(BorrowedProps {
            associated_scope: Some(g),
            drop_props: Some(logs(&log, "props of g")),
        });
    }
    arena.get_scope_mut(&g).unwrap().items.listeners.push(listener(&log, "listeners of g"));

    let steps = arena.ensure_drop_safety(&p);
    assert_eq!(
        steps,
        vec![
            DropStep::ListenersReleased(g),
            DropStep::PropsDropped(g),
            DropStep::ListenersReleased(c),
            DropStep::PropsDropped(c),
            DropStep::ListenersReleased(p),
        ]
    );
    assert_eq!(
        *log.borrow(),
        vec![
            "listeners of g".to_string(),
            "props of g".to_string(),
            "listeners of c".to_string(),
            "props of c".to_string(),
            "listeners of p".to_string(),
        ]
    );
    for id in [p, c, g] {
        let scope = arena.get_scope(&id).unwrap();
        assert!(scope.items.listeners.is_empty());
        assert!(scope.items.borrowed_props.is_empty());
    }
}

#[test]
fn records_are_finalized_in_order_of_registration() {
    let mut arena = arena();
    let log = Rc::new(RefCell::new(Vec::new()));
    let p = arena.new_with_key(1, renders("p"), None, 0, 0);
    let first = arena.new_with_key(2, renders("first"), Some(p), 1, 0);
    let second = arena.new_with_key(2, renders("second"), Some(p), 1, 0);
    {
        let scope = arena.get_scope_mut(&p).unwrap();
        scope.items.borrowed_props.push(BorrowedProps {
            associated_scope: Some(first),
            drop_props: Some(logs(&log, "first")),
        });
        scope.items.borrowed_props.push(BorrowedProps {
            associated_scope: Some(second),
            drop_props: Some(logs(&log, "second")),
        });
    }
    let steps = arena.ensure_drop_safety(&p);
    assert_eq!(
        steps,
        vec![
            DropStep::ListenersReleased(first),
            DropStep::PropsDropped(first),
            DropStep::ListenersReleased(second),
            DropStep::PropsDropped(second),
            DropStep::ListenersReleased(p),
        ]
    );
    assert_eq!(*log.borrow(), vec!["first".to_string(), "second".to_string()]);
}

#[test]
fn scope_without_items_only_releases_listeners() {
    let mut arena = arena();
    let a = arena.new_with_key(1, renders("a"), None, 0, 0);
    assert_eq!(arena.ensure_drop_safety(&a), vec![DropStep::ListenersReleased(a)]);
}

#[test]
fn remove_finalizes_and_quiesces() {
    let mut arena = arena();
    let log = Rc::new(RefCell::new(Vec::new()));
    let p = arena.new_with_key(1, renders("p"), None, 0, 7);
    let c = arena.new_with_key(2, renders("c"), Some(p), 1, 7);
    assert!(arena.run_scope(&p));
    {
        let scope = arena.get_scope_mut(&p).unwrap();
        scope.hooks.push_hook(5);
        scope.shared_contexts.push((11, 12));
        scope.is_subtree_root = true;
        scope.items.listeners.push(listener(&log, "listeners of p"));
        scope.items.tasks.push(logs(&log, "task"));
        scope.items.borrowed_props.push(BorrowedProps {
            associated_scope: Some(c),
            drop_props: Some(logs(&log, "props of c")),
        });
    }
    let slot = arena.get_scope_raw(&p).unwrap();
    assert_eq!(arena.try_remove(&p), Some(()));
    assert_eq!(*log.borrow(), vec!["props of c".to_string(), "listeners of p".to_string()]);
    assert!(arena.get_scope(&p).is_none());
    assert!(arena.get_scope(&c).is_some());

    let next = arena.new_with_key(1, renders("n"), None, 0, 0);
    assert_eq!(arena.get_scope_raw(&next), Some(slot));
    let scope = arena.get_scope(&next).unwrap();
    assert_eq!(scope.hooks.len(), 0);
    assert!(scope.shared_contexts.is_empty());
    assert!(scope.items.tasks.is_empty());
    assert!(!scope.is_subtree_root);
    assert_eq!(scope.subtree, 0);
    assert_eq!(scope.parent_scope, None);
}

#[test]
fn remove_of_unknown_id_is_tolerated() {
    let mut arena = arena();
    assert_eq!(arena.try_remove(&ScopeId(4)), None);
    let a = arena.new_with_key(1, renders("a"), None, 0, 0);
    assert_eq!(arena.try_remove(&ScopeId(4)), None);
    assert!(arena.get_scope(&a).is_some());
    assert_eq!(arena.try_remove(&a), Some(()));
    assert_eq!(arena.try_remove(&a), None);
}

#[test]
fn finalization_is_checked_without_changes() {
    let mut arena = arena();
    let log = Rc::new(RefCell::new(Vec::new()));
    let p = arena.new_with_key(1, renders("p"), None, 0, 0);
    let c = arena.new_with_key(2, renders("c"), Some(p), 1, 0);
    let g = arena.new_with_key(3, renders("g"), Some(c), 2, 0);
    assert!(arena.can_ensure_drop_safety(&p));
    assert!(!arena.can_ensure_drop_safety(&ScopeId(9)));
    arena.get_scope_mut(&p).unwrap().items.borrowed_props.push(BorrowedProps {
        associated_scope: Some(c),
        drop_props: Some(logs(&log, "props of c")),
    });
    arena.get_scope_mut(&p).unwrap().items.borrowed_props.push(BorrowedProps {
        associated_scope: Some(c),
        drop_props: Some(logs(&log, "props of c again")),
    });
    arena.get_scope_mut(&c).unwrap().items.borrowed_props.push(BorrowedProps {
        associated_scope: Some(g),
        drop_props: Some(logs(&log, "props of g")),
    });
    assert!(arena.can_ensure_drop_safety(&p));
    assert_eq!(arena.get_scope(&p).unwrap().items.borrowed_props.len(), 2);
    assert_eq!(arena.get_scope(&c).unwrap().items.borrowed_props.len(), 1);
    assert!(log.borrow().is_empty());

    assert_eq!(arena.try_remove(&g), Some(()));
    assert!(!arena.can_ensure_drop_safety(&p));
    assert!(!arena.can_ensure_drop_safety(&c));

    let again = arena.new_with_key(3, renders("g"), Some(c), 2, 0);
    arena.get_scope_mut(&c).unwrap().items.borrowed_props[0].associated_scope = Some(again);
    assert!(arena.can_ensure_drop_safety(&p));
    let steps = arena.ensure_drop_safety(&p);
    assert_eq!(
        steps,
        vec![
            DropStep::ListenersReleased(again),
            DropStep::PropsDropped(again),
            DropStep::ListenersReleased(c),
            DropStep::PropsDropped(c),
            DropStep::ListenersReleased(c),
            DropStep::PropsDropped(c),
            DropStep::ListenersReleased(p),
        ]
    );
    assert_eq!(
        *log.borrow(),
        vec!["props of g".to_string(), "props of c".to_string(), "props of c again".to_string()]
    );
}

#[test]
fn broken_records_are_found() {
    let mut arena = arena();
    let log = Rc::new(RefCell::new(Vec::new()));
    let p = arena.new_with_key(1, renders("p"), None, 0, 0);
    let c = arena.new_with_key(2, renders("c"), Some(p), 1, 0);
    arena.get_scope_mut(&p).unwrap().items.borrowed_props.push(BorrowedProps {
        associated_scope: None,
        drop_props: Some(logs(&log, "nobody")),
    });
    assert!(!arena.can_ensure_drop_safety(&p));
    arena.get_scope_mut(&p).unwrap().items.borrowed_props[0].associated_scope = Some(c);
    assert!(arena.can_ensure_drop_safety(&p));
    arena.get_scope_mut(&p).unwrap().items.borrowed_props[0].drop_props = None;
    assert!(!arena.can_ensure_drop_safety(&p));
    assert!(arena.can_ensure_drop_safety(&c));
}

#[test]
fn fresh_scope_reaches_the_scheduler() {
    let (sender, mut receiver) = unbounded::<SchedulerMsg>();
    let mut arena: Arena = ScopeArena::new(sender);
    let a = arena.new_with_key(1, renders("a"), None, 0, 0);
    let scope = arena.get_scope(&a).unwrap();
    assert!(scope.sender.unbounded_send(SchedulerMsg::Immediate(a)).is_ok());
    assert!(arena.sender.unbounded_send(SchedulerMsg::NewTask(a)).is_ok());
    assert_eq!(receiver.try_next().unwrap(), Some(SchedulerMsg::Immediate(a)));
    assert_eq!(receiver.try_next().unwrap(), Some(SchedulerMsg::NewTask(a)));
}

#[test]
fn reserved_keys_are_recycled() {
    let mut arena = arena();
    let a = arena.new_with_key(1, renders("a"), None, 0, 0);
    let head = NodeHandle { scope: a, frame: 1, index: 0 };
    let other = NodeHandle { scope: a, frame: 0, index: 0 };
    let first = arena.reserve_node(head);
    let second = arena.reserve_node(other);
    assert_eq!(first, ElementId(0));
    assert_eq!(second, ElementId(1));
    assert_eq!(arena.get_element(first), Some(head));
    assert_eq!(arena.get_element(second), Some(other));

    arena.collect_garbage(first);
    assert_eq!(arena.get_element(first), None);
    assert_eq!(arena.get_element(second), Some(other));

    let third = arena.reserve_node(head);
    assert_eq!(third, first);
    assert_ne!(third, second);
    assert_eq!(arena.get_element(third), Some(head));
    let fourth = arena.reserve_node(other);
    assert_eq!(fourth, ElementId(2));
}

#[test]
fn released_keys_come_back_last_first() {
    let mut arena = arena();
    let handle = NodeHandle { scope: ScopeId(0), frame: 0, index: 0 };
    let keys: Vec<ElementId> = (0..3).map(|_| arena.reserve_node(handle)).collect();
    arena.collect_garbage(keys[0]);
    arena.collect_garbage(keys[2]);
    assert_eq!(arena.reserve_node(handle), keys[2]);
    assert_eq!(arena.reserve_node(handle), keys[0]);
    assert_eq!(arena.reserve_node(handle), ElementId(3));
}
