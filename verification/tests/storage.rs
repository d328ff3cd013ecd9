use scope_arena::frame::Frame;
use scope_arena::hooks::HookList;
use scope_arena::nodes::{VNode, VText};

#[test]
fn frame_links_trees_in_order() {
    let mut frame = Frame::new(4);
    assert_eq!(frame.len(), 0);
    assert_eq!(frame.assign_nodelink(VNode::text("a")), 0);
    assert_eq!(frame.assign_nodelink(VNode::text("b")), 1);
    assert_eq!(frame.len(), 2);
    assert_eq!(*frame.head(), VNode::text("a"));
    frame.reset();
    assert_eq!(frame.len(), 0);
    frame.push_placeholder();
    assert_eq!(
        *frame.head(),
        VNode::Text(VText { dom_id: None, is_static: false, text: String::new() })
    );
}

#[test]
fn text_nodes_hold_their_text() {
    assert_eq!(
        VNode::text("hey"),
        VNode::Text(VText { dom_id: None, is_static: false, text: "hey".to_string() })
    );
    assert_eq!(VNode::empty_text(), VNode::text(""));
}

#[test]
fn hooks_are_read_in_call_order() {
    let mut hooks: HookList<&str> = HookList::new(2);
    assert!(hooks.at_end());
    assert_eq!(hooks.next(), None);
    assert_eq!(hooks.cur_idx(), 0);
    hooks.push_hook("state");
    hooks.push_hook("effect");
    assert_eq!(hooks.len(), 2);
    assert!(!hooks.at_end());
    assert_eq!(hooks.next(), Some(&mut "state"));
    assert_eq!(hooks.next(), Some(&mut "effect"));
    assert!(hooks.at_end());
    assert_eq!(hooks.next(), None);
    assert_eq!(hooks.cur_idx(), 2);
    hooks.reset();
    assert_eq!(hooks.cur_idx(), 0);
    assert_eq!(hooks.len(), 2);
    assert_eq!(hooks.next(), Some(&mut "state"));
    hooks.clear();
    assert_eq!(hooks.len(), 0);
    assert_eq!(hooks.cur_idx(), 0);
}

#[test]
fn hooks_are_updated_in_place() {
    let mut hooks: HookList<u32> = HookList::new(0);
    hooks.push_hook(1);
    hooks.push_hook(2);
    if let Some(count) = hooks.next() {
        *count += 10;
    }
    assert_eq!(hooks.cur_idx(), 1);
    assert_eq!(hooks.len(), 2);
    hooks.reset();
    assert_eq!(hooks.next(), Some(&mut 11));
    assert_eq!(hooks.next(), Some(&mut 2));
    assert_eq!(hooks.next(), None);
}
