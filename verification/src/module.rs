//! Modules: as the decoder hands them over, and as the store holds them.
use crate::address::{
    ExecutableFuncAddr, FuncAddr, GlobalAddr, MemoryAddr, ModuleIndex, ResolvedGlobalAddr,
    ResolvedMemoryAddr, ResolvedTableAddr, TableAddr,
};
use crate::func::FuncType;
use crate::global::GlobalType;
use crate::inst::{InitExpr, Instruction};
use crate::names::{bound, lookup, Named};
use crate::value::ValueType;
use vstd::prelude::*;
use vstd::string::*;

verus! {

/// The least size of a table or memory, and the greatest it may grow to.
#[derive(Clone, Copy, Debug, PartialEq, Eq, Structural)]
pub struct ResizableLimits {
    pub initial: u32,
    pub maximum: Option<u32>,
}

/// What an import asks for.
#[derive(Clone, Copy, Debug, PartialEq, Eq, Structural)]
pub enum External {
    /// A function of the type at this index of the type section.
    Function(u32),
    Table(ResizableLimits),
    Memory(ResizableLimits),
    Global(GlobalType),
}

/// One import: the module and the field asked for, and what is asked.
#[derive(Clone, Debug, PartialEq, Eq)]
pub struct ImportEntry {
    pub module: String,
    pub field: String,
    pub external: External,
}

/// What an export names: an index into one of the module's index spaces.
#[derive(Clone, Copy, Debug, PartialEq, Eq, Structural)]
pub enum Internal {
    Function(u32),
    Table(u32),
    Memory(u32),
    Global(u32),
}

/// The four kinds of things that cross a module's border.
#[derive(Clone, Copy, Debug, PartialEq, Eq, Structural)]
pub enum ExportKind {
    Function,
    Table,
    Memory,
    Global,
}

/// The body of a function: one type per declared local, and the code.
#[derive(Clone, Debug, PartialEq, Eq)]
pub struct FuncBody {
    pub locals: Vec<ValueType>,
    pub code: Vec<Instruction>,
}

/// A global that a module defines: its type and its initialiser.
#[derive(Clone, Debug, PartialEq, Eq)]
pub struct GlobalEntry {
    pub global_type: GlobalType,
    pub init_expr: InitExpr,
}

/// Functions to be written into the table at `index`, from the slot that
/// `offset` evaluates to.
#[derive(Clone, Debug, PartialEq, Eq)]
pub struct ElementSegment {
    pub index: u32,
    pub offset: InitExpr,
    pub members: Vec<u32>,
}

/// Bytes to be written into the memory at `index`, from the address that
/// `offset` evaluates to.
#[derive(Clone, Debug, PartialEq, Eq)]
pub struct DataSegment {
    pub index: u32,
    pub offset: InitExpr,
    pub value: Vec<u8>,
}

/// A decoded module, section by section.
#[derive(Clone, Debug, PartialEq, Eq)]
pub struct Module {
    pub types: Vec<FuncType>,
    pub imports: Vec<ImportEntry>,
    /// For each function of the module, the index of its type.
    pub functions: Vec<u32>,
    pub tables: Vec<ResizableLimits>,
    pub memories: Vec<ResizableLimits>,
    pub globals: Vec<GlobalEntry>,
    pub exports: Vec<Named<Internal>>,
    pub start: Option<u32>,
    pub elements: Vec<ElementSegment>,
    /// For each function of the module, its body.
    pub codes: Vec<FuncBody>,
    pub data: Vec<DataSegment>,
}

impl Module {
    /// A module without anything in it.
    pub fn new() -> (m: Module)
        ensures
            m.types@.len() == 0,
            m.imports@.len() == 0,
            m.functions@.len() == 0,
            m.tables@.len() == 0,
            m.memories@.len() == 0,
            m.globals@.len() == 0,
            m.exports@.len() == 0,
            m.start is None,
            m.elements@.len() == 0,
            m.codes@.len() == 0,
            m.data@.len() == 0,
    {
        Module {
            types: Vec::new(),
            imports: Vec::new(),
            functions: Vec::new(),
            tables: Vec::new(),
            memories: Vec::new(),
            globals: Vec::new(),
            exports: Vec::new(),
            start: None,
            elements: Vec::new(),
            codes: Vec::new(),
            data: Vec::new(),
        }
    }
}

/// An export of another kind than the one asked for.
#[derive(Clone, Copy, Debug, PartialEq, Eq, Structural)]
pub enum DefinedModuleError {
    TypeMismatch(ExportKind, Internal),
}

/// A module that was instantiated from a decoded module.
pub struct DefinedModuleInstance {
    pub module_index: ModuleIndex,
    pub types: Vec<FuncType>,
    pub exports: Vec<Named<Internal>>,
    pub start_func: Option<FuncAddr>,
}

impl DefinedModuleInstance {
    pub fn new(
        module_index: ModuleIndex,
        types: Vec<FuncType>,
        exports: Vec<Named<Internal>>,
        start_func: Option<FuncAddr>,
    ) -> (m: Self)
        ensures
            m.module_index == module_index,
            m.types == types,
            m.exports == exports,
            m.start_func == start_func,
    {
        DefinedModuleInstance { module_index, types, exports, start_func }
    }

    /// What the module exports under a name.
    pub open spec fn export(&self, name: Seq<char>) -> Option<Internal> {
        bound(self.exports@, name)
    }

    /// The function exported under `name`: its address in this module,
    /// `None` where the module exports nothing of that name, and an error
    /// where it exports something else.
    pub fn exported_func(&self, name: &String) -> (r: Result<Option<FuncAddr>, DefinedModuleError>)
        ensures
            r == match self.export(name@) {
                None => Ok::<Option<FuncAddr>, DefinedModuleError>(None),
                Some(Internal::Function(i)) => Ok(Some(FuncAddr(self.module_index, i as usize))),
                Some(other) => Err(DefinedModuleError::TypeMismatch(ExportKind::Function, other)),
            },
    {
        match lookup(&self.exports, name) {
            None => Ok(None),
            Some(Internal::Function(i)) => Ok(Some(FuncAddr(self.module_index, *i as usize))),
            Some(other) => Err(DefinedModuleError::TypeMismatch(ExportKind::Function, *other)),
        }
    }

    /// The table exported under `name`; see `exported_func`.
    pub fn exported_table(&self, name: &String) -> (r: Result<
        Option<TableAddr>,
        DefinedModuleError,
    >)
        ensures
            r == match self.export(name@) {
                None => Ok::<Option<TableAddr>, DefinedModuleError>(None),
                Some(Internal::Table(i)) => Ok(Some(TableAddr(self.module_index, i as usize))),
                Some(other) => Err(DefinedModuleError::TypeMismatch(ExportKind::Table, other)),
            },
    {
        match lookup(&self.exports, name) {
            None => Ok(None),
            Some(Internal::Table(i)) => Ok(Some(TableAddr(self.module_index, *i as usize))),
            Some(other) => Err(DefinedModuleError::TypeMismatch(ExportKind::Table, *other)),
        }
    }

    /// The memory exported under `name`; see `exported_func`.
    pub fn exported_memory(&self, name: &String) -> (r: Result<
        Option<MemoryAddr>,
        DefinedModuleError,
    >)
        ensures
            r == match self.export(name@) {
                None => Ok::<Option<MemoryAddr>, DefinedModuleError>(None),
                Some(Internal::Memory(i)) => Ok(Some(MemoryAddr(self.module_index, i as usize))),
                Some(other) => Err(DefinedModuleError::TypeMismatch(ExportKind::Memory, other)),
            },
    {
        match lookup(&self.exports, name) {
            None => Ok(None),
            Some(Internal::Memory(i)) => Ok(Some(MemoryAddr(self.module_index, *i as usize))),
            Some(other) => Err(DefinedModuleError::TypeMismatch(ExportKind::Memory, *other)),
        }
    }

    /// The global exported under `name`; see `exported_func`.
    pub fn exported_global(&self, name: &String) -> (r: Result<
        Option<GlobalAddr>,
        DefinedModuleError,
    >)
        ensures
            r == match self.export(name@) {
                None => Ok::<Option<GlobalAddr>, DefinedModuleError>(None),
                Some(Internal::Global(i)) => Ok(Some(GlobalAddr(self.module_index, i as usize))),
                Some(other) => Err(DefinedModuleError::TypeMismatch(ExportKind::Global, other)),
            },
    {
        match lookup(&self.exports, name) {
            None => Ok(None),
            Some(Internal::Global(i)) => Ok(Some(GlobalAddr(self.module_index, *i as usize))),
            Some(other) => Err(DefinedModuleError::TypeMismatch(ExportKind::Global, *other)),
        }
    }
}

/// What a host module exports under a name: the handle of an item of the
/// store.
#[derive(Clone, Copy, Debug, PartialEq, Eq, Structural)]
pub enum HostExport {
    Func(ExecutableFuncAddr),
    Global(ResolvedGlobalAddr),
    Table(ResolvedTableAddr),
    Mem(ResolvedMemoryAddr),
}

/// A host export of another kind than the one asked for.
#[derive(Clone, Copy, Debug, PartialEq, Eq, Structural)]
pub enum HostModuleError {
    TypeMismatch(ExportKind, HostExport),
}

/// A module that the embedder registered: nothing but exports.
pub struct HostModuleInstance {
    pub values: Vec<Named<HostExport>>,
}

impl HostModuleInstance {
    pub fn new(values: Vec<Named<HostExport>>) -> (m: Self)
        ensures
            m.values == values,
    {
        HostModuleInstance { values }
    }

    /// What the module exports under a name.
    pub open spec fn export(&self, name: Seq<char>) -> Option<HostExport> {
        bound(self.values@, name)
    }

    /// The function exported under `name`: its handle, `None` where the
    /// module exports nothing of that name, and an error where it exports
    /// something else.
    pub fn func_by_name(&self, name: &String) -> (r: Result<
        Option<ExecutableFuncAddr>,
        HostModuleError,
    >)
        ensures
            r == match self.export(name@) {
                None => Ok::<Option<ExecutableFuncAddr>, HostModuleError>(None),
                Some(HostExport::Func(a)) => Ok(Some(a)),
                Some(other) => Err(HostModuleError::TypeMismatch(ExportKind::Function, other)),
            },
    {
        match lookup(&self.values, name) {
            None => Ok(None),
            Some(HostExport::Func(a)) => Ok(Some(*a)),
            Some(other) => Err(HostModuleError::TypeMismatch(ExportKind::Function, *other)),
        }
    }

    /// The table exported under `name`; see `func_by_name`.
    pub fn table_by_name(&self, name: &String) -> (r: Result<
        Option<ResolvedTableAddr>,
        HostModuleError,
    >)
        ensures
            r == match self.export(name@) {
                None => Ok::<Option<ResolvedTableAddr>, HostModuleError>(None),
                Some(HostExport::Table(a)) => Ok(Some(a)),
                Some(other) => Err(HostModuleError::TypeMismatch(ExportKind::Table, other)),
            },
    {
        match lookup(&self.values, name) {
            None => Ok(None),
            Some(HostExport::Table(a)) => Ok(Some(*a)),
            Some(other) => Err(HostModuleError::TypeMismatch(ExportKind::Table, *other)),
        }
    }

    /// The memory exported under `name`; see `func_by_name`.
    pub fn memory_by_name(&self, name: &String) -> (r: Result<
        Option<ResolvedMemoryAddr>,
        HostModuleError,
    >)
        ensures
            r == match self.export(name@) {
                None => Ok::<Option<ResolvedMemoryAddr>, HostModuleError>(None),
                Some(HostExport::Mem(a)) => Ok(Some(a)),
                Some(other) => Err(HostModuleError::TypeMismatch(ExportKind::Memory, other)),
            },
    {
        match lookup(&self.values, name) {
            None => Ok(None),
            Some(HostExport::Mem(a)) => Ok(Some(*a)),
            Some(other) => Err(HostModuleError::TypeMismatch(ExportKind::Memory, *other)),
        }
    }

    /// The global exported under `name`; see `func_by_name`.
    pub fn global_by_name(&self, name: &String) -> (r: Result<
        Option<ResolvedGlobalAddr>,
        HostModuleError,
    >)
        ensures
            r == match self.export(name@) {
                None => Ok::<Option<ResolvedGlobalAddr>, HostModuleError>(None),
                Some(HostExport::Global(a)) => Ok(Some(a)),
                Some(other) => Err(HostModuleError::TypeMismatch(ExportKind::Global, other)),
            },
    {
        match lookup(&self.values, name) {
            None => Ok(None),
            Some(HostExport::Global(a)) => Ok(Some(*a)),
            Some(other) => Err(HostModuleError::TypeMismatch(ExportKind::Global, *other)),
        }
    }
}

/// A module of the store.
pub enum ModuleInstance {
    Defined(DefinedModuleInstance),
    Host(HostModuleInstance),
}

impl ModuleInstance {
    /// The module, if it was instantiated from a decoded module.
    pub fn defined(&self) -> (r: Option<&DefinedModuleInstance>)
        ensures
            match *self {
                ModuleInstance::Defined(m) => r == Some(&m),
                ModuleInstance::Host(_) => r is None,
            },
    {
        match self {
            ModuleInstance::Defined(m) => Some(m),
            ModuleInstance::Host(_) => None,
        }
    }

    /// The module, if the embedder registered it.
    pub fn host(&self) -> (r: Option<&HostModuleInstance>)
        ensures
            match *self {
                ModuleInstance::Defined(_) => r is None,
                ModuleInstance::Host(m) => r == Some(&m),
            },
    {
        match self {
            ModuleInstance::Defined(_) => None,
            ModuleInstance::Host(m) => Some(m),
        }
    }
}

impl Internal {
    pub open spec fn kind(self) -> ExportKind {
        match self {
            Internal::Function(_) => ExportKind::Function,
            Internal::Table(_) => ExportKind::Table,
            Internal::Memory(_) => ExportKind::Memory,
            Internal::Global(_) => ExportKind::Global,
        }
    }

    pub open spec fn index(self) -> u32 {
        match self {
            Internal::Function(i) => i,
            Internal::Table(i) => i,
            Internal::Memory(i) => i,
            Internal::Global(i) => i,
        }
    }
}

impl HostExport {
    pub open spec fn kind(self) -> ExportKind {
        match self {
            HostExport::Func(_) => ExportKind::Function,
            HostExport::Table(_) => ExportKind::Table,
            HostExport::Mem(_) => ExportKind::Memory,
            HostExport::Global(_) => ExportKind::Global,
        }
    }

    pub open spec fn handle(self) -> usize {
        match self {
            HostExport::Func(a) => a.0,
            HostExport::Table(a) => a.0,
            HostExport::Mem(a) => a.0,
            HostExport::Global(a) => a.0,
        }
    }

    /// The export of a kind with a handle.
    pub open spec fn of(kind: ExportKind, handle: usize) -> HostExport {
        match kind {
            ExportKind::Function => HostExport::Func(ExecutableFuncAddr(handle)),
            ExportKind::Table => HostExport::Table(ResolvedTableAddr(handle)),
            ExportKind::Memory => HostExport::Mem(ResolvedMemoryAddr(handle)),
            ExportKind::Global => HostExport::Global(ResolvedGlobalAddr(handle)),
        }
    }
}

} // verus!
