//! Typed addresses: module-local references and resolved handles.
use vstd::prelude::*;

verus! {

/// Position of a module instance in the store's module table.
#[derive(Clone, Copy, Debug, PartialEq, Eq, Structural)]
pub struct ModuleIndex(pub u32);

/// A function as module `0` sees it at local index `1`.
#[derive(Clone, Copy, Debug, PartialEq, Eq, Structural)]
pub struct FuncAddr(pub ModuleIndex, pub usize);

/// A table as module `0` sees it at local index `1`.
#[derive(Clone, Copy, Debug, PartialEq, Eq, Structural)]
pub struct TableAddr(pub ModuleIndex, pub usize);

/// A memory as module `0` sees it at local index `1`.
#[derive(Clone, Copy, Debug, PartialEq, Eq, Structural)]
pub struct MemoryAddr(pub ModuleIndex, pub usize);

/// A global as module `0` sees it at local index `1`.
#[derive(Clone, Copy, Debug, PartialEq, Eq, Structural)]
pub struct GlobalAddr(pub ModuleIndex, pub usize);

/// Handle of a function among all functions of the store.
#[derive(Clone, Copy, Debug, PartialEq, Eq, Structural)]
pub struct ExecutableFuncAddr(pub usize);

/// Handle of a table among all tables of the store.
#[derive(Clone, Copy, Debug, PartialEq, Eq, Structural)]
pub struct ResolvedTableAddr(pub usize);

/// Handle of a memory among all memories of the store.
#[derive(Clone, Copy, Debug, PartialEq, Eq, Structural)]
pub struct ResolvedMemoryAddr(pub usize);

/// Handle of a global among all globals of the store.
#[derive(Clone, Copy, Debug, PartialEq, Eq, Structural)]
pub struct ResolvedGlobalAddr(pub usize);

impl FuncAddr {
    /// Builds an address without checking that any store resolves it.
    pub fn new_unsafe(module: ModuleIndex, index: usize) -> (addr: FuncAddr)
        ensures
            addr == FuncAddr(module, index),
    {
        FuncAddr(module, index)
    }

    pub fn module_index(&self) -> (m: ModuleIndex)
        ensures
            m == self.0,
    {
        self.0
    }
}

} // verus!
