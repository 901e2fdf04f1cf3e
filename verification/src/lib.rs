//! A reactive terminal UI core: fibers, hook storage and the hooks built on it.
use vstd::prelude::*;

pub mod slot;
pub mod hook_list;
pub mod fiber;
pub mod fiber_tree;
pub mod batch;
pub mod effect_queue;
pub mod context_stack;
pub mod event;
pub mod component;
pub mod runtime;
pub mod render_context;
pub mod string_map;
pub mod text;
pub mod input;
pub mod scroll_view;
pub mod element;
pub mod hooks;

verus! {
} // verus!
