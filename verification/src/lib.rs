//! Attach named Lua scripts to a configuration of named fields: resolve each
//! script's source text, inject the fields as Lua globals, run one or all
//! scripts, and read the globals back into the fields afterwards.

pub mod error;
pub mod exec;
pub mod laws;
pub mod runtime;
pub mod script;
pub mod values;
