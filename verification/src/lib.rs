//! The component-scope arena of a retained-mode UI runtime, together with the
//! mouse-event data and the head-element script builders that sit beside it.
//!
//! Every scope lives in a slot of the arena. A scope owns two frames that
//! alternate between "finished" and "work in progress", a positional hook
//! list, and the bookkeeping of items that refer into its frames. The arena
//! hands out fresh scope ids, recycles retired slots, and finalizes borrowed
//! state bottom-up before any frame is reset.
pub mod nodes;
pub mod frame;
pub mod hooks;
pub mod outside;
pub mod scope;
pub mod drop_order;
pub mod scopearena;
pub mod laws;
pub mod geometry;
pub mod input_data;
pub mod mouse;
pub mod document;
