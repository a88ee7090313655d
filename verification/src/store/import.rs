//! The resolution of imports: what an import names, whether that is
//! compatible with what the import declares, and the local slot for it.
use crate::address::{
    ExecutableFuncAddr, ModuleIndex, ResolvedGlobalAddr, ResolvedMemoryAddr, ResolvedTableAddr,
};
use crate::func::FuncType;
use crate::global::GlobalType;
use crate::module::{
    DefinedModuleError, ExportKind, External, HostExport, HostModuleError, ImportEntry, Module,
    ModuleInstance, ResizableLimits,
};
use crate::names::{bound, lemma_bound_is_entry};
use crate::store::error::{undefined, Error, ErrorView};
use crate::store::instantiate::Plan;
use crate::store::Store;
use vstd::prelude::*;
use vstd::string::*;

verus! {

/// Whether a table or memory with the limits `initial` and `max` may stand
/// for an import that asks for `asked`: it is at least as large, and where
/// a greatest size is asked for it has one that is no greater.
pub open spec fn limits_fit(initial: usize, max: Option<usize>, asked: ResizableLimits) -> bool {
    &&& initial >= asked.initial
    &&& match asked.maximum {
        Some(expected) => max matches Some(found) && found <= expected,
        None => true,
    }
}

/// Whether the limits of a table or memory fit what an import asks for.
pub fn check_limits(initial: usize, max: Option<usize>, asked: ResizableLimits) -> (b: bool)
    ensures
        b == limits_fit(initial, max, asked),
{
    if initial < asked.initial as usize {
        return false;
    }
    match asked.maximum {
        Some(expected) => match max {
            Some(found) => found <= expected as usize,
            None => false,
        },
        None => true,
    }
}

/// The handles behind the local slots that a module has of each kind.
pub struct Slots {
    pub funcs: Seq<usize>,
    pub tables: Seq<usize>,
    pub mems: Seq<usize>,
    pub globals: Seq<usize>,
}

impl Slots {
    /// No slots.
    pub open spec fn empty() -> Slots {
        Slots {
            funcs: Seq::empty(),
            tables: Seq::empty(),
            mems: Seq::empty(),
            globals: Seq::empty(),
        }
    }

    /// The slots with one more, for `target`.
    pub open spec fn with(self, target: HostExport) -> Slots {
        match target {
            HostExport::Func(a) => Slots { funcs: self.funcs.push(a.0), ..self },
            HostExport::Table(a) => Slots { tables: self.tables.push(a.0), ..self },
            HostExport::Mem(a) => Slots { mems: self.mems.push(a.0), ..self },
            HostExport::Global(a) => Slots { globals: self.globals.push(a.0), ..self },
        }
    }
}

impl<C> Store<C> {
    /// The handle of what a module exports under `field`, if that is of the
    /// kind asked for: `None` where it exports nothing of that name, or
    /// what it names is not there; an error where it is of another kind.
    pub open spec fn exported(&self, module: ModuleInstance, field: Seq<char>, kind: ExportKind) -> Result<
        Option<usize>,
        ErrorView,
    > {
        match module {
            ModuleInstance::Defined(m) => match m.export(field) {
                None => Ok(None),
                Some(internal) => if internal.kind() == kind {
                    Ok(self.resolved(kind, m.module_index, internal.index() as usize))
                } else {
                    Err(ErrorView::InvalidImport(DefinedModuleError::TypeMismatch(kind, internal)))
                },
            },
            ModuleInstance::Host(m) => match m.export(field) {
                None => Ok(None),
                Some(export) => if export.kind() == kind {
                    Ok(Some(export.handle()))
                } else {
                    Err(ErrorView::InvalidHostImport(HostModuleError::TypeMismatch(kind, export)))
                },
            },
        }
    }

    /// The handle of what an import names, if that is of the kind asked
    /// for. A module name that is not registered, and a field that the
    /// module does not export, give the error for an import that names
    /// nothing.
    pub open spec fn import_handle(&self, entry: ImportEntry, kind: ExportKind) -> Result<
        usize,
        ErrorView,
    > {
        match self.module_named(entry.module@) {
            None => Err(undefined(kind, entry.module@, entry.field@)),
            Some(module) => match self.exported(module, entry.field@, kind) {
                Err(e) => Err(e),
                Ok(None) => Err(undefined(kind, entry.module@, entry.field@)),
                Ok(Some(handle)) => Ok(handle),
            },
        }
    }

    /// What an import resolves to: the item that it names, where that is
    /// compatible with what the import declares.
    ///
    /// A function must have the declared signature. A table or a memory
    /// must be at least as large as declared and, where a greatest size is
    /// declared, have one that is no greater. A global must agree in
    /// mutability and in the type it holds.
    pub open spec fn import_target(&self, entry: ImportEntry, types: Seq<FuncType>) -> Result<
        HostExport,
        ErrorView,
    > {
        match entry.external {
            External::Function(type_index) => if type_index >= types.len() {
                Err(ErrorView::UnknownType(type_index))
            } else {
                match self.import_handle(entry, ExportKind::Function) {
                    Err(e) => Err(e),
                    Ok(handle) => {
                        let actual = self.funcs().items[handle as int].spec_ty();
                        if actual@ == types[type_index as int]@ {
                            Ok(HostExport::Func(ExecutableFuncAddr(handle)))
                        } else {
                            Err(
                                ErrorView::IncompatibleImportFuncType(
                                    entry.field@,
                                    types[type_index as int]@,
                                    actual@,
                                ),
                            )
                        }
                    },
                }
            },
            External::Memory(limits) => match self.import_handle(entry, ExportKind::Memory) {
                Err(e) => Err(e),
                Ok(handle) => {
                    let found = self.mems().items[handle as int]@;
                    if limits_fit(found.initial, found.max, limits) {
                        Ok(HostExport::Mem(ResolvedMemoryAddr(handle)))
                    } else {
                        Err(ErrorView::IncompatibleImportMemoryType)
                    }
                },
            },
            External::Table(limits) => match self.import_handle(entry, ExportKind::Table) {
                Err(e) => Err(e),
                Ok(handle) => {
                    let found = self.tables().items[handle as int]@;
                    if limits_fit(found.initial, found.max, limits) {
                        Ok(HostExport::Table(ResolvedTableAddr(handle)))
                    } else {
                        Err(ErrorView::IncompatibleImportTableType)
                    }
                },
            },
            External::Global(ty) => match self.import_handle(entry, ExportKind::Global) {
                Err(e) => Err(e),
                Ok(handle) => {
                    let found = self.globals().items[handle as int].ty;
                    if found.mutable != ty.mutable {
                        Err(ErrorView::IncompatibleImportGlobalMutability)
                    } else if found.content_type != ty.content_type {
                        Err(
                            ErrorView::IncompatibleImportGlobalType(
                                ty.content_type,
                                found.content_type,
                            ),
                        )
                    } else {
                        Ok(HostExport::Global(ResolvedGlobalAddr(handle)))
                    }
                },
            },
        }
    }

    /// The local slots that the imports give a module, in the order of the
    /// import section; the error of the first import that fails.
    pub open spec fn imported(&self, entries: Seq<ImportEntry>, types: Seq<FuncType>) -> Result<
        Slots,
        ErrorView,
    >
        decreases entries.len(),
    {
        if entries.len() == 0 {
            Ok(Slots::empty())
        } else {
            match self.imported(entries.drop_last(), types) {
                Err(e) => Err(e),
                Ok(slots) => match self.import_target(entries.last(), types) {
                    Err(e) => Err(e),
                    Ok(target) => Ok(slots.with(target)),
                },
            }
        }
    }

    /// Whether this store differs from `start` in nothing but the local
    /// slots of `module`.
    pub open spec fn same_but_slots(&self, start: &Store<C>, module: ModuleIndex) -> bool {
        &&& self.modules() == start.modules()
        &&& self.names() == start.names()
        &&& self.contexts() == start.contexts()
        &&& self.funcs().items == start.funcs().items
        &&& self.tables().items == start.tables().items
        &&& self.mems().items == start.mems().items
        &&& self.globals().items == start.globals().items
        &&& self.funcs().locals.remove(module.0) == start.funcs().locals.remove(module.0)
        &&& self.tables().locals.remove(module.0) == start.tables().locals.remove(module.0)
        &&& self.mems().locals.remove(module.0) == start.mems().locals.remove(module.0)
        &&& self.globals().locals.remove(module.0) == start.globals().locals.remove(module.0)
    }

    /// The error for an import that names nothing.
    fn undefined_error(kind: ExportKind, entry: &ImportEntry) -> (e: Error)
        ensures
            e@ == undefined(kind, entry.module@, entry.field@),
    {
        match kind {
            ExportKind::Function => Error::UndefinedFunction(
                entry.module.clone(),
                entry.field.clone(),
            ),
            ExportKind::Table => Error::UndefinedTable(entry.module.clone(), entry.field.clone()),
            ExportKind::Memory => Error::UndefinedMemory(entry.module.clone(), entry.field.clone()),
            ExportKind::Global => Error::UndefinedGlobal(entry.module.clone(), entry.field.clone()),
        }
    }

    /// Looks up what an import names, as the kind asked for.
    fn find_import(&self, entry: &ImportEntry, kind: ExportKind) -> (r: Result<usize, Error>)
        requires
            self.handles_valid(),
        ensures
            match self.import_handle(*entry, kind) {
                Ok(handle) => r == Ok::<usize, Error>(handle) && self.holds(
                    HostExport::of(kind, handle),
                ),
                Err(e) => r is Err && r->Err_0@ == e,
            },
    {
        let module = match self.module_by_name(&entry.module) {
            Some(module) => module,
            None => {
                return Err(Self::undefined_error(kind, entry));
            },
        };
        let found: Option<usize> = match module {
            ModuleInstance::Defined(m) => match kind {
                ExportKind::Function => match m.exported_func(&entry.field) {
                    Ok(Some(addr)) => self.funcs.resolve(addr.0, addr.1),
                    Ok(None) => None,
                    Err(e) => {
                        return Err(Error::InvalidImport(e));
                    },
                },
                ExportKind::Table => match m.exported_table(&entry.field) {
                    Ok(Some(addr)) => self.tables.resolve(addr.0, addr.1),
                    Ok(None) => None,
                    Err(e) => {
                        return Err(Error::InvalidImport(e));
                    },
                },
                ExportKind::Memory => match m.exported_memory(&entry.field) {
                    Ok(Some(addr)) => self.mems.resolve(addr.0, addr.1),
                    Ok(None) => None,
                    Err(e) => {
                        return Err(Error::InvalidImport(e));
                    },
                },
                ExportKind::Global => match m.exported_global(&entry.field) {
                    Ok(Some(addr)) => self.globals.resolve(addr.0, addr.1),
                    Ok(None) => None,
                    Err(e) => {
                        return Err(Error::InvalidImport(e));
                    },
                },
            },
            ModuleInstance::Host(m) => match kind {
                ExportKind::Function => match m.func_by_name(&entry.field) {
                    Ok(Some(addr)) => Some(addr.0),
                    Ok(None) => None,
                    Err(e) => {
                        return Err(Error::InvalidHostImport(e));
                    },
                },
                ExportKind::Table => match m.table_by_name(&entry.field) {
                    Ok(Some(addr)) => Some(addr.0),
                    Ok(None) => None,
                    Err(e) => {
                        return Err(Error::InvalidHostImport(e));
                    },
                },
                ExportKind::Memory => match m.memory_by_name(&entry.field) {
                    Ok(Some(addr)) => Some(addr.0),
                    Ok(None) => None,
                    Err(e) => {
                        return Err(Error::InvalidHostImport(e));
                    },
                },
                ExportKind::Global => match m.global_by_name(&entry.field) {
                    Ok(Some(addr)) => Some(addr.0),
                    Ok(None) => None,
                    Err(e) => {
                        return Err(Error::InvalidHostImport(e));
                    },
                },
            },
        };
        match found {
            Some(handle) => {
                proof {
                    let index = bound(self.names(), entry.module@)->Some_0;
                    match module {
                        ModuleInstance::Defined(m) => {
                            let internal = m.export(entry.field@)->Some_0;
                            let slot = internal.index() as int;
                            match kind {
                                ExportKind::Function => {
                                    assert(self.funcs().locals[m.module_index.0][slot] == handle);
                                },
                                ExportKind::Table => {
                                    assert(self.tables().locals[m.module_index.0][slot] == handle);
                                },
                                ExportKind::Memory => {
                                    assert(self.mems().locals[m.module_index.0][slot] == handle);
                                },
                                ExportKind::Global => {
                                    assert(self.globals().locals[m.module_index.0][slot] == handle);
                                },
                            }
                        },
                        ModuleInstance::Host(m) => {
                            lemma_bound_is_entry(m.values@, entry.field@);
                            let k = choose|k: int|
                                0 <= k < m.values@.len() && (#[trigger] m.values@[k]).value
                                    == m.export(entry.field@)->Some_0 && m.values@[k].name@
                                    == entry.field@;
                            assert(self.holds(
                                self.modules()[index.0 as int]->Host_0.values@[k].value,
                            ));
                        },
                    }
                }
                Ok(handle)
            },
            None => Err(Self::undefined_error(kind, entry)),
        }
    }

    /// Resolves an import of a function and gives the module a local slot
    /// for it.
    fn load_import_function(
        &mut self,
        module_index: ModuleIndex,
        import: &ImportEntry,
        type_index: u32,
        types: &Vec<FuncType>,
    ) -> (r: Result<(), Error>)
        requires
            old(self).handles_valid(),
            import.external == External::Function(type_index),
        ensures
            final(self).handles_valid(),
            final(self).same_but_slots(old(self), module_index),
            match old(self).import_target(*import, types@) {
                Ok(target) => r is Ok && final(self).slots(module_index) == old(self).slots(
                    module_index,
                ).with(target),
                Err(e) => r is Err && r->Err_0@ == e
                    && final(self).slots(module_index) == old(self).slots(module_index),
            },
    {
        if type_index as usize >= types.len() {
            return Err(Error::UnknownType(type_index));
        }
        let expected = &types[type_index as usize];
        let handle = match self.find_import(import, ExportKind::Function) {
            Ok(handle) => handle,
            Err(e) => {
                return Err(e);
            },
        };
        let actual = self.funcs.get_global(handle).ty();
        if !actual.equals(expected) {
            return Err(
                Error::IncompatibleImportFuncType(
                    import.field.clone(),
                    expected.duplicate(),
                    actual.duplicate(),
                ),
            );
        }
        self.funcs.link(handle, module_index);
        proof {
            assert(self.funcs().locals.remove(module_index.0) =~= old(self).funcs().locals.remove(
                module_index.0,
            ));
            self.lemma_handles_stay_valid(old(self));
        }
        Ok(())
    }

    /// Resolves an import of a memory and gives the module a local slot for
    /// it.
    fn load_import_memory(
        &mut self,
        module_index: ModuleIndex,
        import: &ImportEntry,
        memory_ty: ResizableLimits,
    ) -> (r: Result<(), Error>)
        requires
            old(self).handles_valid(),
            import.external == External::Memory(memory_ty),
        ensures
            final(self).handles_valid(),
            final(self).same_but_slots(old(self), module_index),
            match old(self).import_target(*import, Seq::empty()) {
                Ok(target) => r is Ok && final(self).slots(module_index) == old(self).slots(
                    module_index,
                ).with(target),
                Err(e) => r is Err && r->Err_0@ == e
                    && final(self).slots(module_index) == old(self).slots(module_index),
            },
    {
        let handle = match self.find_import(import, ExportKind::Memory) {
            Ok(handle) => handle,
            Err(e) => {
                return Err(e);
            },
        };
        let memory = self.mems.get_global(handle);
        if !check_limits(memory.initial(), memory.max(), memory_ty) {
            return Err(Error::IncompatibleImportMemoryType);
        }
        self.mems.link(handle, module_index);
        proof {
            assert(self.mems().locals.remove(module_index.0) =~= old(self).mems().locals.remove(
                module_index.0,
            ));
            self.lemma_handles_stay_valid(old(self));
        }
        Ok(())
    }

    /// Resolves an import of a table and gives the module a local slot for
    /// it.
    fn load_import_table(
        &mut self,
        module_index: ModuleIndex,
        import: &ImportEntry,
        table_ty: ResizableLimits,
    ) -> (r: Result<(), Error>)
        requires
            old(self).handles_valid(),
            import.external == External::Table(table_ty),
        ensures
            final(self).handles_valid(),
            final(self).same_but_slots(old(self), module_index),
            match old(self).import_target(*import, Seq::empty()) {
                Ok(target) => r is Ok && final(self).slots(module_index) == old(self).slots(
                    module_index,
                ).with(target),
                Err(e) => r is Err && r->Err_0@ == e
                    && final(self).slots(module_index) == old(self).slots(module_index),
            },
    {
        let handle = match self.find_import(import, ExportKind::Table) {
            Ok(handle) => handle,
            Err(e) => {
                return Err(e);
            },
        };
        let table = self.tables.get_global(handle);
        if !check_limits(table.initial(), table.max(), table_ty) {
            return Err(Error::IncompatibleImportTableType);
        }
        self.tables.link(handle, module_index);
        proof {
            assert(self.tables().locals.remove(module_index.0) =~= old(self).tables().locals.remove(
                module_index.0,
            ));
            self.lemma_handles_stay_valid(old(self));
        }
        Ok(())
    }

    /// Resolves an import of a global and gives the module a local slot for
    /// it.
    fn load_import_global(
        &mut self,
        module_index: ModuleIndex,
        import: &ImportEntry,
        global_ty: GlobalType,
    ) -> (r: Result<(), Error>)
        requires
            old(self).handles_valid(),
            import.external == External::Global(global_ty),
        ensures
            final(self).handles_valid(),
            final(self).same_but_slots(old(self), module_index),
            match old(self).import_target(*import, Seq::empty()) {
                Ok(target) => r is Ok && final(self).slots(module_index) == old(self).slots(
                    module_index,
                ).with(target),
                Err(e) => r is Err && r->Err_0@ == e
                    && final(self).slots(module_index) == old(self).slots(module_index),
            },
    {
        let handle = match self.find_import(import, ExportKind::Global) {
            Ok(handle) => handle,
            Err(e) => {
                return Err(e);
            },
        };
        let actual = self.globals.get_global(handle).ty();
        if actual.is_mutable() != global_ty.is_mutable() {
            return Err(Error::IncompatibleImportGlobalMutability);
        }
        if actual.content_type() != global_ty.content_type() {
            return Err(
                Error::IncompatibleImportGlobalType(
                    global_ty.content_type(),
                    actual.content_type(),
                ),
            );
        }
        self.globals.link(handle, module_index);
        proof {
            assert(self.globals().locals.remove(module_index.0)
                =~= old(self).globals().locals.remove(
                module_index.0,
            ));
            self.lemma_handles_stay_valid(old(self));
        }
        Ok(())
    }

    /// Resolves the imports of a module in their order and gives the module
    /// a local slot for each.
    pub(crate) fn load_imports(
        &mut self,
        imports: &Vec<ImportEntry>,
        module_index: ModuleIndex,
        types: &Vec<FuncType>,
    ) -> (r: Result<(), Error>)
        requires
            old(self).wf(),
            module_index.0 == old(self).modules().len(),
        ensures
            final(self).handles_valid(),
            final(self).same_but_slots(old(self), module_index),
            match old(self).imported(imports@, types@) {
                Ok(slots) => r is Ok && final(self).slots(module_index) == slots,
                Err(e) => r is Err && r->Err_0@ == e,
            },
    {
        let mut i: usize = 0;
        proof {
            assert(imports@.take(0) =~= Seq::<ImportEntry>::empty());
            assert(self.slots(module_index) == Slots::empty());
        }
        while i < imports.len()
            invariant
                i <= imports@.len(),
                old(self).wf(),
                module_index.0 == old(self).modules().len(),
                self.handles_valid(),
                self.same_but_slots(old(self), module_index),
                old(self).imported(imports@.take(i as int), types@) == Ok::<Slots, ErrorView>(
                    self.slots(module_index),
                ),
            decreases imports@.len() - i,
        {
            let import = &imports[i];
            let ghost before = *self;
            proof {
                assert(imports@.take(i as int + 1).drop_last() =~= imports@.take(i as int));
                before.lemma_import_target_stable(old(self), module_index, *import, types@);
                before.lemma_import_target_stable(old(self), module_index, *import, Seq::empty());
            }
            let done = match import.external {
                External::Function(type_index) => self.load_import_function(
                    module_index,
                    import,
                    type_index,
                    types,
                ),
                External::Memory(memory_ty) => self.load_import_memory(
                    module_index,
                    import,
                    memory_ty,
                ),
                External::Table(table_ty) => self.load_import_table(module_index, import, table_ty),
                External::Global(global_ty) => self.load_import_global(
                    module_index,
                    import,
                    global_ty,
                ),
            };
            match done {
                Ok(()) => {},
                Err(e) => {
                    proof {
                        old(self).lemma_imported_fails(imports@, types@, i as int + 1);
                    }
                    return Err(e);
                },
            }
            i += 1;
        }
        proof {
            assert(imports@.take(i as int) =~= imports@);
        }
        Ok(())
    }

    /// The local slots of a module that is not there yet decide no import.
    pub proof fn lemma_import_target_stable(
        &self,
        start: &Store<C>,
        module: ModuleIndex,
        entry: ImportEntry,
        types: Seq<FuncType>,
    )
        requires
            start.wf(),
            module.0 >= start.modules().len(),
            self.same_but_slots(start, module),
        ensures
            self.import_target(entry, types) == start.import_target(entry, types),
    {
        assert forall|kind: ExportKind, m: ModuleIndex, index: usize| m.0 != module.0 implies
            self.resolved(
            kind,
            m,
            index,
        ) == start.resolved(kind, m, index) by {
            assert(self.funcs().locals.remove(module.0).contains_key(m.0)
                == start.funcs().locals.remove(module.0).contains_key(m.0));
            assert(self.tables().locals.remove(module.0).contains_key(m.0)
                == start.tables().locals.remove(module.0).contains_key(m.0));
            assert(self.mems().locals.remove(module.0).contains_key(m.0)
                == start.mems().locals.remove(module.0).contains_key(m.0));
            assert(self.globals().locals.remove(module.0).contains_key(m.0)
                == start.globals().locals.remove(module.0).contains_key(m.0));
            if self.funcs().locals.contains_key(m.0) {
                assert(self.funcs().locals.remove(module.0)[m.0] == self.funcs().locals[m.0]);
                assert(start.funcs().locals.remove(module.0)[m.0] == start.funcs().locals[m.0]);
            }
            if self.tables().locals.contains_key(m.0) {
                assert(self.tables().locals.remove(module.0)[m.0] == self.tables().locals[m.0]);
                assert(start.tables().locals.remove(module.0)[m.0] == start.tables().locals[m.0]);
            }
            if self.mems().locals.contains_key(m.0) {
                assert(self.mems().locals.remove(module.0)[m.0] == self.mems().locals[m.0]);
                assert(start.mems().locals.remove(module.0)[m.0] == start.mems().locals[m.0]);
            }
            if self.globals().locals.contains_key(m.0) {
                assert(self.globals().locals.remove(module.0)[m.0] == self.globals().locals[m.0]);
                assert(start.globals().locals.remove(module.0)[m.0]
                    == start.globals().locals[m.0]);
            }
        }
        assert forall|kind: ExportKind| #[trigger]
            self.import_handle(entry, kind) == start.import_handle(entry, kind) by {
            match start.module_named(entry.module@) {
                Some(ModuleInstance::Defined(m)) => {
                    let index = bound(start.names(), entry.module@)->Some_0;
                    assert(start.modules()[index.0 as int] is Defined);
                    assert(m.module_index.0 == index.0);
                },
                _ => {},
            }
        }
        assert(self.import_handle(entry, ExportKind::Function) == start.import_handle(
            entry,
            ExportKind::Function,
        ));
        assert(self.import_handle(entry, ExportKind::Table) == start.import_handle(
            entry,
            ExportKind::Table,
        ));
        assert(self.import_handle(entry, ExportKind::Memory) == start.import_handle(
            entry,
            ExportKind::Memory,
        ));
        assert(self.import_handle(entry, ExportKind::Global) == start.import_handle(
            entry,
            ExportKind::Global,
        ));
    }

    /// An import that fails makes the whole list fail, with its error.
    pub proof fn lemma_imported_fails(
        &self,
        entries: Seq<ImportEntry>,
        types: Seq<FuncType>,
        upto: int,
    )
        requires
            0 <= upto <= entries.len(),
            self.imported(entries.take(upto), types) is Err,
        ensures
            self.imported(entries, types) == self.imported(entries.take(upto), types),
        decreases entries.len() - upto,
    {
        if upto < entries.len() {
            assert(entries.take(upto + 1).drop_last() =~= entries.take(upto));
            self.lemma_imported_fails(entries, types, upto + 1);
        } else {
            assert(entries.take(upto) =~= entries);
        }
    }

    /// Imports that all resolve give slots.
    pub proof fn lemma_imports_resolve(
        &self,
        entries: Seq<ImportEntry>,
        types: Seq<FuncType>,
        upto: int,
    )
        requires
            0 <= upto <= entries.len(),
            forall|j: int| 0 <= j < upto
                ==> (#[trigger] self.import_target(entries[j], types)) is Ok,
        ensures
            self.imported(entries.take(upto), types) is Ok,
        decreases upto,
    {
        if upto > 0 {
            self.lemma_imports_resolve(entries, types, upto - 1);
            assert(entries.take(upto).drop_last() =~= entries.take(upto - 1));
            assert(self.import_target(entries[upto - 1], types) is Ok);
        }
    }

    /// An import that is not compatible with what it names makes the
    /// instantiation fail with its error: where the imports before it
    /// resolve and this one does not, the plan is the error of this one.
    pub proof fn lemma_failing_import_fails(&self, module: Module, index: ModuleIndex, k: int)
        requires
            0 <= k < module.imports@.len(),
            forall|j: int|
                0 <= j < k ==> (#[trigger] self.import_target(
                    module.imports@[j],
                    module.types@,
                )) is Ok,
            self.import_target(module.imports@[k], module.types@) is Err,
        ensures
            self.plan(module, index) == Err::<Plan, ErrorView>(
                self.import_target(module.imports@[k], module.types@)->Err_0,
            ),
    {
        self.lemma_imports_resolve(module.imports@, module.types@, k);
        assert(module.imports@.take(k + 1).drop_last() =~= module.imports@.take(k));
        self.lemma_imported_fails(module.imports@, module.types@, k + 1);
    }

    /// What an import resolves to is an item of the store.
    pub proof fn lemma_import_target_holds(&self, entry: ImportEntry, types: Seq<FuncType>)
        requires
            self.handles_valid(),
            self.import_target(entry, types) is Ok,
        ensures
            self.holds(self.import_target(entry, types)->Ok_0),
    {
        let target = self.import_target(entry, types)->Ok_0;
        let kind = target.kind();
        assert(self.import_handle(entry, kind) == Ok::<usize, ErrorView>(target.handle()));
        let index = bound(self.names(), entry.module@)->Some_0;
        match self.module_named(entry.module@)->Some_0 {
            ModuleInstance::Defined(m) => {
                let slot = m.export(entry.field@)->Some_0.index() as int;
                match kind {
                    ExportKind::Function => {
                        assert(self.funcs().locals[m.module_index.0][slot] == target.handle());
                    },
                    ExportKind::Table => {
                        assert(self.tables().locals[m.module_index.0][slot] == target.handle());
                    },
                    ExportKind::Memory => {
                        assert(self.mems().locals[m.module_index.0][slot] == target.handle());
                    },
                    ExportKind::Global => {
                        assert(self.globals().locals[m.module_index.0][slot] == target.handle());
                    },
                }
            },
            ModuleInstance::Host(m) => {
                lemma_bound_is_entry(m.values@, entry.field@);
                let k = choose|k: int|
                    0 <= k < m.values@.len() && (#[trigger] m.values@[k]).value == m.export(
                        entry.field@,
                    )->Some_0 && m.values@[k].name@ == entry.field@;
                assert(self.holds(self.modules()[index.0 as int]->Host_0.values@[k].value));
            },
        }
    }

    /// The slots that imports give a module point at items of the store.
    pub proof fn lemma_imported_slots_hold(&self, entries: Seq<ImportEntry>, types: Seq<FuncType>)
        requires
            self.handles_valid(),
            self.imported(entries, types) is Ok,
        ensures
            ({
                let slots = self.imported(entries, types)->Ok_0;
                &&& forall|i: int|
                    0 <= i < slots.funcs.len() ==> (#[trigger] slots.funcs[i])
                        < self.funcs().items.len()
                &&& forall|i: int|
                    0 <= i < slots.tables.len() ==> (#[trigger] slots.tables[i])
                        < self.tables().items.len()
                &&& forall|i: int|
                    0 <= i < slots.mems.len() ==> (#[trigger] slots.mems[i])
                        < self.mems().items.len()
                &&& forall|i: int|
                    0 <= i < slots.globals.len() ==> (#[trigger] slots.globals[i])
                        < self.globals().items.len()
            }),
        decreases entries.len(),
    {
        if entries.len() > 0 {
            self.lemma_imported_slots_hold(entries.drop_last(), types);
            self.lemma_import_target_holds(entries.last(), types);
        }
    }
}

} // verus!
