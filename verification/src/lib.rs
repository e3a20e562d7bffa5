use vstd::prelude::*;

pub mod chars;
pub mod handler_list;
pub mod types;
pub mod oklch_syntax;
pub mod layout;
pub mod engine;
pub mod state;
pub mod theme;
pub mod primitives;
pub mod renderer;
pub mod pipeline;

verus! {
} // verus!
