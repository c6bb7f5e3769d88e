//! Compiler for declarative UI templates: turns a markup tree annotated with
//! reactive bindings, plus an embedded script, into a single imperative
//! rendering function whose updates are gated by bit-mask dirty checks.

pub mod codec;
pub mod generate;
pub mod info;
pub mod laws;
pub mod output;
pub mod markup;
pub mod rewrite;
pub mod script;
pub mod sorting;
pub mod strutil;
pub mod targets;
pub mod transform;
