use vstd::prelude::*;

pub mod datum_ref;
pub mod text;
pub mod console;
pub mod datum;
pub mod allocator;
pub mod compare;
pub mod datum_formatting;
pub mod datum_operations;
pub mod handler;
pub mod scope;
pub mod context_vars;
pub mod compiled;
pub mod debug;
pub mod cast_member;
pub mod events;
pub mod commands;
pub mod export;
pub mod cast_export;
pub mod eval;
pub mod message_chain;
pub mod sprite_events;
pub mod ole;
pub mod member_def;
pub mod lingo_eval;
pub mod xmed_text;
pub mod script_text;

verus! {
} // verus!
