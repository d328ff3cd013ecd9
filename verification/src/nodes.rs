//! Identifiers and the node values that a render pass produces.
use vstd::prelude::*;

verus! {

/// Identifies a live scope. Issued from a counter that only grows.
#[derive(Clone, Copy, Debug, PartialEq, Eq, Hash, Structural)]
pub struct ScopeId(pub usize);

/// Key of a reserved node in the arena's slot map. Keys are recycled.
#[derive(Clone, Copy, Debug, PartialEq, Eq, Hash, Structural)]
pub struct ElementId(pub usize);

/// A run of text.
#[derive(Debug, PartialEq, Eq)]
pub struct VText {
    pub dom_id: Option<ElementId>,
    pub is_static: bool,
    pub text: String,
}

/// A tagged element with its children.
#[derive(Debug, PartialEq, Eq)]
pub struct VElement {
    pub dom_id: Option<ElementId>,
    pub tag: String,
    pub children: Vec<VNode>,
}

/// One node of a rendered tree.
#[derive(Debug, PartialEq, Eq)]
pub enum VNode {
    Text(VText),
    Element(VElement),
    Fragment(Vec<VNode>),
}

/// What a render callback hands back: a tree and the scope that claims it.
#[derive(Debug, PartialEq, Eq)]
pub struct NodeLink {
    pub scope_id: Option<ScopeId>,
    pub node: VNode,
}

/// The result of one render: a linked tree, or nothing when the component
/// is suspended.
pub type Element = Option<NodeLink>;

/// A non-owning reference to a node: the scope, which of its two frames,
/// and the position in that frame's node list.
#[derive(Clone, Copy, Debug, PartialEq, Eq, Hash, Structural)]
pub struct NodeHandle {
    pub scope: ScopeId,
    pub frame: usize,
    pub index: usize,
}

/// A notification for the scheduler.
#[derive(Clone, Copy, Debug, PartialEq, Eq, Structural)]
pub enum SchedulerMsg {
    /// The scope asks to be rendered again.
    Immediate(ScopeId),
    /// The scope has queued a task.
    NewTask(ScopeId),
}

impl VNode {
    /// True of the placeholder that a fresh frame starts with: a text node
    /// with no characters, not static, not mounted.
    pub open spec fn is_empty_text(self) -> bool {
        match self {
            VNode::Text(t) => t.text@ == Seq::<char>::empty() && !t.is_static && t.dom_id.is_none(),
            _ => false,
        }
    }

    /// The placeholder node.
    pub fn empty_text() -> (node: VNode)
        ensures
            node.is_empty_text(),
    {
        VNode::Text(VText { dom_id: None, is_static: false, text: String::new() })
    }

    /// True of a plain text node whose characters are `chars`.
    pub open spec fn is_text(self, chars: Seq<char>) -> bool {
        match self {
            VNode::Text(t) => t.text@ == chars && !t.is_static && t.dom_id.is_none(),
            _ => false,
        }
    }

    /// A text node holding `text`.
    pub fn text(text: &str) -> (node: VNode)
        ensures
            node.is_text(text@),
    {
        VNode::Text(VText { dom_id: None, is_static: false, text: String::from_str(text) })
    }
}

} // verus!
