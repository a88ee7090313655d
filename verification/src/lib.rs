//! A debugging-oriented WebAssembly virtual machine.
//!
//! The store owns every runtime entity and links modules against each
//! other; the executor interprets one instruction per step on a unified
//! stack of values, labels and call frames.
pub mod address;
pub mod commands;
pub mod context;
pub mod dwarf;
pub mod executor;
pub mod func;
pub mod global;
pub mod inst;
pub mod laws;
pub mod linker;
pub mod memory;
pub mod module;
pub mod names;
pub mod stack;
pub mod store;
pub mod table;
pub mod text;
pub mod value;
