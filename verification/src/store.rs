//! The store: owner of every function, table, memory, global and module.
use crate::address::{
    ExecutableFuncAddr, FuncAddr, GlobalAddr, MemoryAddr, ModuleIndex, ResolvedGlobalAddr,
    ResolvedMemoryAddr, ResolvedTableAddr, TableAddr,
};
use crate::context::{context_of, EmbedContexts};
use crate::executor::Env;
use crate::func::{FuncType, FunctionInstance, HostFunction, HostFunctionInstance};
use crate::global::GlobalInstance;
use crate::linker::{
    lemma_stable_in_transitive, lemma_stable_resolve, LinkableCollection, LinkableView,
};
use crate::memory::MemoryInstance;
use crate::module::{ExportKind, HostExport, HostModuleInstance, Internal, ModuleInstance};
use crate::names::{bound, lookup, Named};
use crate::store::import::Slots;
use crate::table::TableInstance;
use crate::value::Value;
use vstd::prelude::*;
use vstd::string::*;

pub mod error;
pub mod import;
pub mod instantiate;
pub mod segment;

pub use self::error::{Error, ErrorView};
pub use self::import::check_limits;
pub use self::segment::{eval_const_expr, eval_offset};

verus! {

/// Why a global was not written.
#[derive(Clone, Copy, Debug, PartialEq, Eq, Structural)]
pub enum GlobalError {
    /// The module has no global at that index.
    Undefined,
    /// The global was declared immutable.
    Immutable,
}

/// What a host module offers under one of its field names.
#[verifier::reject_recursive_types(C)]
pub enum HostValue<C> {
    Func(FuncType, Box<dyn HostFunction<C>>),
    Global(GlobalInstance),
    Table(TableInstance),
    Mem(MemoryInstance),
}

impl<C> HostValue<C> {
    /// The kind of thing that the value is.
    pub open spec fn kind(&self) -> ExportKind {
        match self {
            HostValue::Func(_, _) => ExportKind::Function,
            HostValue::Global(_) => ExportKind::Global,
            HostValue::Table(_) => ExportKind::Table,
            HostValue::Mem(_) => ExportKind::Memory,
        }
    }
}

/// The number of entries of one kind in a list of host values.
pub open spec fn count_kind<C>(values: Seq<Named<HostValue<C>>>, kind: ExportKind) -> nat
    decreases values.len(),
{
    if values.len() == 0 {
        0
    } else {
        count_kind(values.drop_last(), kind) + if values.last().value.kind() == kind {
            1nat
        } else {
            0nat
        }
    }
}

/// How many items of each kind a store holds.
pub struct Counts {
    pub funcs: nat,
    pub tables: nat,
    pub mems: nat,
    pub globals: nat,
}

/// The handle that entry `k` of a host module gets in a store that held
/// `base` items before: the entries of a kind get the next handles of that
/// kind, in their order.
pub open spec fn host_export<C>(
    values: Seq<Named<HostValue<C>>>,
    k: int,
    base: Counts,
) -> HostExport {
    let earlier = count_kind(values.take(k), values[k].value.kind());
    match values[k].value {
        HostValue::Func(_, _) => HostExport::Func(
            ExecutableFuncAddr((base.funcs + earlier) as usize),
        ),
        HostValue::Global(_) => HostExport::Global(
            ResolvedGlobalAddr((base.globals + earlier) as usize),
        ),
        HostValue::Table(_) => HostExport::Table(
            ResolvedTableAddr((base.tables + earlier) as usize),
        ),
        HostValue::Mem(_) => HostExport::Mem(ResolvedMemoryAddr((base.mems + earlier) as usize)),
    }
}

/// What the interpreter reads of functions and globals: the functions as
/// plain values, without what the host functions call.
pub open spec fn env_of<C>(
    funcs: LinkableView<FunctionInstance<C>>,
    globals: LinkableView<GlobalInstance>,
) -> Env {
    Env {
        funcs: LinkableView {
            items: funcs.items.map_values(|f: FunctionInstance<C>| f@),
            locals: funcs.locals,
        },
        globals,
    }
}

/// The owner of every runtime entity. `C` is the type of the contexts that
/// the embedder stashes in it.
#[verifier::reject_recursive_types(C)]
pub struct Store<C> {
    funcs: LinkableCollection<FunctionInstance<C>>,
    tables: LinkableCollection<TableInstance>,
    mems: LinkableCollection<MemoryInstance>,
    globals: LinkableCollection<GlobalInstance>,
    modules: Vec<ModuleInstance>,
    module_index_by_name: Vec<Named<ModuleIndex>>,
    embedded_contexts: EmbedContexts<C>,
}

impl<C> Store<C> {
    /// The functions.
    pub closed spec fn funcs(&self) -> LinkableView<FunctionInstance<C>> {
        self.funcs@
    }

    /// The tables.
    pub closed spec fn tables(&self) -> LinkableView<TableInstance> {
        self.tables@
    }

    /// The memories.
    pub closed spec fn mems(&self) -> LinkableView<MemoryInstance> {
        self.mems@
    }

    /// The globals.
    pub closed spec fn globals(&self) -> LinkableView<GlobalInstance> {
        self.globals@
    }

    /// The module table.
    pub closed spec fn modules(&self) -> Seq<ModuleInstance> {
        self.modules@
    }

    /// The name registry: the latest entry of a name binds it.
    pub closed spec fn names(&self) -> Seq<Named<ModuleIndex>> {
        self.module_index_by_name@
    }

    /// The contexts that the embedder stashed, each under its tag.
    pub closed spec fn contexts(&self) -> Seq<(u64, C)> {
        self.embedded_contexts@
    }

    /// What the interpreter reads of the store.
    pub open spec fn env(&self) -> Env {
        env_of(self.funcs(), self.globals())
    }

    /// How many items of each kind the store holds.
    pub open spec fn counts(&self) -> Counts {
        Counts {
            funcs: self.funcs().items.len(),
            tables: self.tables().items.len(),
            mems: self.mems().items.len(),
            globals: self.globals().items.len(),
        }
    }

    /// Whether a host export points at an item of the store.
    pub open spec fn holds(&self, export: HostExport) -> bool {
        match export {
            HostExport::Func(a) => a.0 < self.funcs().items.len(),
            HostExport::Global(a) => a.0 < self.globals().items.len(),
            HostExport::Table(a) => a.0 < self.tables().items.len(),
            HostExport::Mem(a) => a.0 < self.mems().items.len(),
        }
    }

    /// No module beyond the first `n` has local slots.
    pub open spec fn slots_below(&self, n: int) -> bool {
        &&& forall|m: u32| #[trigger] self.funcs().locals.contains_key(m) ==> m < n
        &&& forall|m: u32| #[trigger] self.tables().locals.contains_key(m) ==> m < n
        &&& forall|m: u32| #[trigger] self.mems().locals.contains_key(m) ==> m < n
        &&& forall|m: u32| #[trigger] self.globals().locals.contains_key(m) ==> m < n
    }

    /// Every handle that a local slot or a host module holds points at an
    /// item of the store.
    pub open spec fn handles_valid(&self) -> bool {
        &&& self.funcs().wf()
        &&& self.tables().wf()
        &&& self.mems().wf()
        &&& self.globals().wf()
        &&& forall|i: int, k: int|
            0 <= i < self.modules().len() && self.modules()[i] is Host && 0 <= k
                < self.modules()[i]->Host_0.values@.len() ==> self.holds(
                (#[trigger] self.modules()[i]->Host_0.values@[k]).value,
            )
        &&& forall|i: int|
            0 <= i < self.modules().len() && (#[trigger] self.modules()[i]) is Defined
                ==> self.modules()[i]->Defined_0.module_index.0 == i
    }

    /// The invariant of the store between two calls.
    pub open spec fn wf(&self) -> bool {
        &&& self.handles_valid()
        &&& self.modules().len() <= u32::MAX
        &&& self.slots_below(self.modules().len() as int)
    }

    /// The handle behind a local index of a module, in the collection of a
    /// kind.
    pub open spec fn resolved(&self, kind: ExportKind, module: ModuleIndex, index: usize) -> Option<
        usize,
    > {
        match kind {
            ExportKind::Function => self.funcs().resolve(module, index),
            ExportKind::Table => self.tables().resolve(module, index),
            ExportKind::Memory => self.mems().resolve(module, index),
            ExportKind::Global => self.globals().resolve(module, index),
        }
    }

    /// The local slots that a module has of each kind.
    pub open spec fn slots(&self, module: ModuleIndex) -> Slots {
        Slots {
            funcs: self.funcs().slots(module),
            tables: self.tables().slots(module),
            mems: self.mems().slots(module),
            globals: self.globals().slots(module),
        }
    }

    /// The module that a name is bound to, if it is bound to a module of
    /// the store.
    pub open spec fn module_named(&self, name: Seq<char>) -> Option<ModuleInstance> {
        match bound(self.names(), name) {
            Some(index) => if index.0 < self.modules().len() {
                Some(self.modules()[index.0 as int])
            } else {
                None
            },
            None => None,
        }
    }

    /// The handle of the global that a module exports under a field name.
    pub open spec fn exported_global_handle(
        &self,
        module_index: ModuleIndex,
        field: Seq<char>,
    ) -> Option<usize> {
        if module_index.0 < self.modules().len() && self.modules()[module_index.0 as int]
            is Defined {
            let module = self.modules()[module_index.0 as int]->Defined_0;
            match module.export(field) {
                Some(Internal::Global(i)) => self.globals().resolve(
                    module.module_index,
                    i as usize,
                ),
                _ => None,
            }
        } else {
            None
        }
    }

    /// Whether nothing differs between this store and `old`.
    pub open spec fn same_as(&self, old: &Store<C>) -> bool {
        &&& self.funcs() == old.funcs()
        &&& self.tables() == old.tables()
        &&& self.mems() == old.mems()
        &&& self.globals() == old.globals()
        &&& self.modules() == old.modules()
        &&& self.names() == old.names()
        &&& self.contexts() == old.contexts()
    }

    /// Whether this store has the modules, the names, the functions and the
    /// local slots of `old`, and as many tables, memories and globals.
    pub open spec fn same_shape(&self, old: &Store<C>) -> bool {
        &&& self.funcs() == old.funcs()
        &&& self.tables().locals == old.tables().locals
        &&& self.tables().items.len() == old.tables().items.len()
        &&& self.mems().locals == old.mems().locals
        &&& self.mems().items.len() == old.mems().items.len()
        &&& self.globals().locals == old.globals().locals
        &&& self.globals().items.len() == old.globals().items.len()
        &&& self.modules() == old.modules()
        &&& self.names() == old.names()
        &&& self.contexts() == old.contexts()
    }

    /// Whether nothing but the globals differs between this store and
    /// `old`.
    pub open spec fn same_but_globals(&self, old: &Store<C>) -> bool {
        &&& self.funcs() == old.funcs()
        &&& self.tables() == old.tables()
        &&& self.mems() == old.mems()
        &&& self.modules() == old.modules()
        &&& self.names() == old.names()
        &&& self.contexts() == old.contexts()
        &&& self.globals().locals == old.globals().locals
        &&& self.globals().items.len() == old.globals().items.len()
    }

    /// Whether every address that `old` resolves, this store resolves to
    /// the same handle, and the functions behind the handles are the same.
    pub open spec fn keeps_addresses(&self, old: &Store<C>) -> bool {
        &&& old.funcs().stable_in(self.funcs())
        &&& old.tables().stable_in(self.tables())
        &&& old.mems().stable_in(self.mems())
        &&& old.globals().stable_in(self.globals())
        &&& self.funcs().items.take(old.funcs().items.len() as int) == old.funcs().items
    }

    /// An empty store.
    pub fn new() -> (s: Self)
        ensures
            s.funcs().items.len() == 0,
            s.tables().items.len() == 0,
            s.mems().items.len() == 0,
            s.globals().items.len() == 0,
            s.funcs().locals == Map::<u32, Seq<usize>>::empty(),
            s.tables().locals == Map::<u32, Seq<usize>>::empty(),
            s.mems().locals == Map::<u32, Seq<usize>>::empty(),
            s.globals().locals == Map::<u32, Seq<usize>>::empty(),
            s.modules() == Seq::<ModuleInstance>::empty(),
            s.names() == Seq::<Named<ModuleIndex>>::empty(),
            s.contexts() == Seq::<(u64, C)>::empty(),
            s.wf(),
    {
        Store {
            funcs: LinkableCollection::new(),
            tables: LinkableCollection::new(),
            mems: LinkableCollection::new(),
            globals: LinkableCollection::new(),
            modules: Vec::new(),
            module_index_by_name: Vec::new(),
            embedded_contexts: EmbedContexts::new(),
        }
    }

    /// The function with the given handle.
    pub fn func_global(&self, addr: ExecutableFuncAddr) -> (r: Option<&FunctionInstance<C>>)
        ensures
            r == if addr.0 < self.funcs().items.len() {
                Some(&self.funcs().items[addr.0 as int])
            } else {
                None
            },
    {
        if addr.0 < self.funcs.len() {
            Some(self.funcs.get_global(addr.0))
        } else {
            None
        }
    }

    /// The function behind a module's local index, with its handle.
    pub fn func(&self, addr: FuncAddr) -> (r: Option<(&FunctionInstance<C>, ExecutableFuncAddr)>)
        requires
            self.wf(),
        ensures
            match self.funcs().resolve(addr.0, addr.1) {
                Some(handle) => r == Some(
                    (&self.funcs().items[handle as int], ExecutableFuncAddr(handle)),
                ),
                None => r is None,
            },
    {
        match self.funcs.get(addr.0, addr.1) {
            Some((f, handle)) => Some((f, ExecutableFuncAddr(handle))),
            None => None,
        }
    }

    /// The global behind a module's local index.
    pub fn global(&self, addr: GlobalAddr) -> (r: Option<&GlobalInstance>)
        requires
            self.wf(),
        ensures
            match self.globals().resolve(addr.0, addr.1) {
                Some(handle) => r == Some(&self.globals().items[handle as int]),
                None => r is None,
            },
    {
        match self.globals.get(addr.0, addr.1) {
            Some((g, _)) => Some(g),
            None => None,
        }
    }

    /// The table behind a module's local index.
    pub fn table(&self, addr: TableAddr) -> (r: Option<&TableInstance>)
        requires
            self.wf(),
        ensures
            match self.tables().resolve(addr.0, addr.1) {
                Some(handle) => r == Some(&self.tables().items[handle as int]),
                None => r is None,
            },
    {
        match self.tables.get(addr.0, addr.1) {
            Some((t, _)) => Some(t),
            None => None,
        }
    }

    /// The memory behind a module's local index.
    pub fn memory(&self, addr: MemoryAddr) -> (r: Option<&MemoryInstance>)
        requires
            self.wf(),
        ensures
            match self.mems().resolve(addr.0, addr.1) {
                Some(handle) => r == Some(&self.mems().items[handle as int]),
                None => r is None,
            },
    {
        match self.mems.get(addr.0, addr.1) {
            Some((m, _)) => Some(m),
            None => None,
        }
    }

    /// The number of memories that a module sees.
    pub fn memory_count(&self, addr: ModuleIndex) -> (n: usize)
        ensures
            n == self.mems().slots(addr).len(),
    {
        self.mems.count(addr)
    }

    /// The module at an index of the module table.
    pub fn module(&self, module_index: ModuleIndex) -> (r: Option<&ModuleInstance>)
        ensures
            r == if module_index.0 < self.modules().len() {
                Some(&self.modules()[module_index.0 as int])
            } else {
                None
            },
    {
        if (module_index.0 as usize) < self.modules.len() {
            Some(&self.modules[module_index.0 as usize])
        } else {
            None
        }
    }

    /// The module that a name is bound to.
    pub fn module_by_name(&self, name: &String) -> (r: Option<&ModuleInstance>)
        ensures
            match self.module_named(name@) {
                Some(m) => r == Some(&m),
                None => r is None,
            },
    {
        match lookup(&self.module_index_by_name, name) {
            Some(index) => self.module(*index),
            None => None,
        }
    }

    /// The index of the module that a name is bound to.
    pub fn module_index_by_name(&self, name: &String) -> (r: Option<ModuleIndex>)
        ensures
            r == bound(self.names(), name@),
    {
        match lookup(&self.module_index_by_name, name) {
            Some(index) => Some(*index),
            None => None,
        }
    }

    /// The global that a module exports under a field name; `None` where
    /// the index names no module that was instantiated from a decoded
    /// module, or the module exports no global under that name.
    pub fn scan_global_by_name(&self, module_index: ModuleIndex, field: &String) -> (r: Option<
        &GlobalInstance,
    >)
        requires
            self.wf(),
        ensures
            match self.exported_global_handle(module_index, field@) {
                Some(handle) => r == Some(&self.globals().items[handle as int]),
                None => r is None,
            },
    {
        let module = match self.module(module_index) {
            Some(ModuleInstance::Defined(m)) => m,
            _ => {
                return None;
            },
        };
        match module.exported_global(field) {
            Ok(Some(addr)) => self.global(addr),
            _ => None,
        }
    }

    /// The number of functions, whoever sees them.
    pub fn func_count(&self) -> (n: usize)
        ensures
            n == self.funcs().items.len(),
    {
        self.funcs.len()
    }

    /// The number of tables, whoever sees them.
    pub fn table_count(&self) -> (n: usize)
        ensures
            n == self.tables().items.len(),
    {
        self.tables.len()
    }

    /// The number of memories, whoever sees them.
    pub fn mem_count(&self) -> (n: usize)
        ensures
            n == self.mems().items.len(),
    {
        self.mems.len()
    }

    /// The number of globals, whoever sees them.
    pub fn global_count(&self) -> (n: usize)
        ensures
            n == self.globals().items.len(),
    {
        self.globals.len()
    }

    /// The number of name bindings that were made, replaced ones counted.
    pub fn name_count(&self) -> (n: usize)
        ensures
            n == self.names().len(),
    {
        self.module_index_by_name.len()
    }

    /// The number of modules.
    pub fn module_count(&self) -> (n: usize)
        ensures
            n == self.modules().len(),
    {
        self.modules.len()
    }

    /// Binds a name to a module index, for the imports of modules that are
    /// loaded later. A later binding of the same name replaces this one.
    pub fn register_name(&mut self, name: String, module_index: ModuleIndex)
        ensures
            final(self).names() == old(self).names().push(Named { name, value: module_index }),
            final(self).funcs() == old(self).funcs(),
            final(self).tables() == old(self).tables(),
            final(self).mems() == old(self).mems(),
            final(self).globals() == old(self).globals(),
            final(self).modules() == old(self).modules(),
            final(self).contexts() == old(self).contexts(),
            old(self).wf() ==> final(self).wf(),
    {
        self.module_index_by_name.push(Named { name, value: module_index });
    }

    /// Stashes a context under a tag. A later context under the same tag
    /// replaces this one.
    pub fn add_embed_context(&mut self, tag: u64, ctx: C)
        ensures
            final(self).contexts() == old(self).contexts().push((tag, ctx)),
            final(self).funcs() == old(self).funcs(),
            final(self).tables() == old(self).tables(),
            final(self).mems() == old(self).mems(),
            final(self).globals() == old(self).globals(),
            final(self).modules() == old(self).modules(),
            final(self).names() == old(self).names(),
            old(self).wf() ==> final(self).wf(),
    {
        self.embedded_contexts.add(tag, ctx);
    }

    /// The context that was stashed under a tag; `None` where there is
    /// none.
    pub fn get_embed_context(&self, tag: u64) -> (r: Option<&C>)
        ensures
            match context_of(self.contexts(), tag) {
                Some(c) => r == Some(&c),
                None => r is None,
            },
    {
        self.embedded_contexts.get(tag)
    }

    /// The contexts, as the host functions get them.
    pub fn embed_contexts(&self) -> (c: &EmbedContexts<C>)
        ensures
            c@ == self.contexts(),
    {
        &self.embedded_contexts
    }

    /// Writes a global that a module sees at a local index. A global that
    /// is not there, or that may not change, is refused, and the store
    /// stays as it is.
    pub fn set_global(&mut self, addr: GlobalAddr, value: Value) -> (r: Result<(), GlobalError>)
        requires
            old(self).wf(),
        ensures
            final(self).wf(),
            final(self).same_but_globals(old(self)),
            match old(self).globals().resolve(addr.0, addr.1) {
                None => r == Err::<(), GlobalError>(GlobalError::Undefined)
                    && final(self).globals().items == old(self).globals().items,
                Some(handle) => if old(self).globals().items[handle as int].ty.mutable {
                    r is Ok && final(self).globals().items == old(self).globals().items.update(
                        handle as int,
                        GlobalInstance { value, ty: old(self).globals().items[handle as int].ty },
                    )
                } else {
                    r == Err::<(), GlobalError>(GlobalError::Immutable)
                        && final(self).globals().items == old(self).globals().items
                },
            },
    {
        let handle = match self.globals.resolve(addr.0, addr.1) {
            Some(handle) => handle,
            None => {
                return Err(GlobalError::Undefined);
            },
        };
        assert(old(self).globals().locals[addr.0.0][addr.1 as int] == handle);
        if !self.globals.get_global(handle).is_mutable() {
            return Err(GlobalError::Immutable);
        }
        self.globals.get_global_mut(handle).set_value(value);
        proof {
            self.lemma_handles_stay_valid(old(self));
        }
        Ok(())
    }

    /// Whether the item behind a host export is what a host value handed
    /// over under the given module and field name.
    pub open spec fn holds_host_value(
        &self,
        export: HostExport,
        value: HostValue<C>,
        module_name: Seq<char>,
        field_name: Seq<char>,
    ) -> bool {
        match (value, export) {
            (HostValue::Func(ty, _), HostExport::Func(a)) => {
                &&& a.0 < self.funcs().items.len()
                &&& self.funcs().items[a.0 as int] matches FunctionInstance::Host(f)
                &&& f.ty == ty
                &&& f.module_name@ == module_name
                &&& f.field_name@ == field_name
            },
            (HostValue::Global(g), HostExport::Global(a)) => {
                a.0 < self.globals().items.len() && self.globals().items[a.0 as int] == g
            },
            (HostValue::Table(t), HostExport::Table(a)) => {
                a.0 < self.tables().items.len() && self.tables().items[a.0 as int] == t
            },
            (HostValue::Mem(m), HostExport::Mem(a)) => {
                a.0 < self.mems().items.len() && self.mems().items[a.0 as int] == m
            },
            _ => false,
        }
    }

    /// Whether this store is `old` with the first `upto` of the host values
    /// added: each as a new item of its kind, after the items that `old`
    /// held, and no local slot changed.
    pub open spec fn has_host_items(
        &self,
        old: &Store<C>,
        name: Seq<char>,
        values: Seq<Named<HostValue<C>>>,
        upto: int,
    ) -> bool {
        &&& self.funcs().locals == old.funcs().locals
        &&& self.tables().locals == old.tables().locals
        &&& self.mems().locals == old.mems().locals
        &&& self.globals().locals == old.globals().locals
        &&& self.funcs().items.len() == old.funcs().items.len() + count_kind(
            values.take(upto),
            ExportKind::Function,
        )
        &&& self.tables().items.len() == old.tables().items.len() + count_kind(
            values.take(upto),
            ExportKind::Table,
        )
        &&& self.mems().items.len() == old.mems().items.len() + count_kind(
            values.take(upto),
            ExportKind::Memory,
        )
        &&& self.globals().items.len() == old.globals().items.len() + count_kind(
            values.take(upto),
            ExportKind::Global,
        )
        &&& self.funcs().items.take(old.funcs().items.len() as int) == old.funcs().items
        &&& self.tables().items.take(old.tables().items.len() as int) == old.tables().items
        &&& self.mems().items.take(old.mems().items.len() as int) == old.mems().items
        &&& self.globals().items.take(old.globals().items.len() as int) == old.globals().items
        &&& forall|k: int|
            0 <= k < upto ==> self.holds_host_value(
                #[trigger] host_export(values, k, old.counts()),
                values[k].value,
                name,
                values[k].name@,
            )
    }

    /// Registers a host module under `name`: every value becomes an item of
    /// the store, in the order of the list, and the module, which exports
    /// each under its field name, is appended to the module table.
    pub fn load_host_module(&mut self, name: String, module: Vec<Named<HostValue<C>>>)
        requires
            old(self).wf(),
            old(self).modules().len() < u32::MAX,
        ensures
            final(self).wf(),
            final(self).keeps_addresses(old(self)),
            final(self).has_host_items(old(self), name@, module@, module@.len() as int),
            final(self).modules().len() == old(self).modules().len() + 1,
            final(self).modules().drop_last() == old(self).modules(),
            final(self).modules().last() matches ModuleInstance::Host(host)
                && host.values@.len() == module@.len() && forall|k: int|
                0 <= k < module@.len() ==> (#[trigger] host.values@[k]).name@ == module@[k].name@
                    && host.values@[k].value == host_export(module@, k, old(self).counts()),
            final(self).names() == old(self).names().push(
                Named { name, value: ModuleIndex(old(self).modules().len() as u32) },
            ),
            final(self).contexts() == old(self).contexts(),
    {
        let module_index = ModuleIndex(self.modules.len() as u32);
        let mut values: Vec<Named<HostExport>> = Vec::new();
        let ghost start = *old(self);
        assert(module@.take(0) =~= Seq::<Named<HostValue<C>>>::empty());
        assert(self.funcs().items.take(self.funcs().items.len() as int) =~= self.funcs().items);
        assert(self.tables().items.take(self.tables().items.len() as int) =~= self.tables().items);
        assert(self.mems().items.take(self.mems().items.len() as int) =~= self.mems().items);
        assert(self.globals().items.take(self.globals().items.len() as int)
            =~= self.globals().items);
        for entry in it: module
            invariant
                it.seq() == module@,
                start.wf(),
                self.handles_valid(),
                self.modules() == start.modules(),
                self.names() == start.names(),
                self.contexts() == start.contexts(),
                self.has_host_items(&start, name@, module@, it.index() as int),
                values@.len() == it.index(),
                forall|k: int|
                    0 <= k < it.index() ==> (#[trigger] values@[k]).name@ == module@[k].name@
                        && values@[k].value == host_export(module@, k, start.counts()),
        {
            let ghost k = it.index() as int;
            let ghost before = *self;
            proof {
                assert(module@.take(k + 1).drop_last() =~= module@.take(k));
            }
            let Named { name: field, value } = entry;
            let export = match value {
                HostValue::Func(ty, code) => {
                    let instance = HostFunctionInstance::new(
                        ty,
                        name.clone(),
                        field.clone(),
                        code,
                    );
                    let handle = self.funcs.push_global(FunctionInstance::Host(instance));
                    HostExport::Func(ExecutableFuncAddr(handle))
                },
                HostValue::Global(g) => {
                    let handle = self.globals.push_global(g);
                    HostExport::Global(ResolvedGlobalAddr(handle))
                },
                HostValue::Table(t) => {
                    let handle = self.tables.push_global(t);
                    HostExport::Table(ResolvedTableAddr(handle))
                },
                HostValue::Mem(m) => {
                    let handle = self.mems.push_global(m);
                    HostExport::Mem(ResolvedMemoryAddr(handle))
                },
            };
            values.push(Named { name: field, value: export });
            proof {
                assert(export == host_export(module@, k, start.counts()));
                assert(self.funcs().items.take(start.funcs().items.len() as int)
                    =~= before.funcs().items.take(start.funcs().items.len() as int));
                assert(self.tables().items.take(start.tables().items.len() as int)
                    =~= before.tables().items.take(start.tables().items.len() as int));
                assert(self.mems().items.take(start.mems().items.len() as int)
                    =~= before.mems().items.take(start.mems().items.len() as int));
                assert(self.globals().items.take(start.globals().items.len() as int)
                    =~= before.globals().items.take(start.globals().items.len() as int));
                assert forall|j: int| 0 <= j < k + 1 implies self.holds_host_value(
                    #[trigger] host_export(module@, j, start.counts()),
                    module@[j].value,
                    name@,
                    module@[j].name@,
                ) by {
                    if j < k {
                        assert(before.holds_host_value(
                            host_export(module@, j, start.counts()),
                            module@[j].value,
                            name@,
                            module@[j].name@,
                        ));
                    }
                }
            }
        }
        proof {
            assert(module@.take(module@.len() as int) =~= module@);
        }
        let ghost loaded = *self;
        self.modules.push(ModuleInstance::Host(HostModuleInstance::new(values)));
        self.module_index_by_name.push(Named { name, value: module_index });
        proof {
            assert(final(self).modules().drop_last() =~= old(self).modules());
            assert forall|i: int, j: int|
                0 <= i < final(self).modules().len() && final(self).modules()[i] is Host && 0 <= j
                    < final(self).modules()[i]->Host_0.values@.len() implies final(self).holds(
                (#[trigger] final(self).modules()[i]->Host_0.values@[j]).value,
            ) by {
                if i < old(self).modules().len() {
                    assert(old(self).holds(old(self).modules()[i]->Host_0.values@[j].value));
                } else {
                    assert(loaded.holds_host_value(
                        host_export(module@, j, start.counts()),
                        module@[j].value,
                        name@,
                        module@[j].name@,
                    ));
                }
            }
        }
    }

    /// The handles stay valid where the modules stay and the collections
    /// only grow.
    pub proof fn lemma_handles_stay_valid(&self, before: &Store<C>)
        requires
            before.handles_valid(),
            self.modules() == before.modules(),
            self.funcs().wf(),
            self.tables().wf(),
            self.mems().wf(),
            self.globals().wf(),
            before.funcs().items.len() <= self.funcs().items.len(),
            before.tables().items.len() <= self.tables().items.len(),
            before.mems().items.len() <= self.mems().items.len(),
            before.globals().items.len() <= self.globals().items.len(),
        ensures
            self.handles_valid(),
    {
        assert forall|i: int, k: int|
            0 <= i < self.modules().len() && self.modules()[i] is Host && 0 <= k
                < self.modules()[i]->Host_0.values@.len() implies self.holds(
            (#[trigger] self.modules()[i]->Host_0.values@[k]).value,
        ) by {
            assert(before.holds(before.modules()[i]->Host_0.values@[k].value));
        }
        assert forall|i: int|
            0 <= i < self.modules().len() && (#[trigger] self.modules()[i]) is Defined implies
                self.modules()[i]->Defined_0.module_index.0
            == i by {
            assert(before.modules()[i] is Defined);
        }
    }

    /// The handles stay valid where a module is appended that knows its
    /// index, or whose handles are valid.
    pub proof fn lemma_handles_valid_with_module(&self, before: &Store<C>)
        requires
            before.handles_valid(),
            self.modules().len() == before.modules().len() + 1,
            self.modules().drop_last() == before.modules(),
            self.funcs() == before.funcs(),
            self.tables() == before.tables(),
            self.mems() == before.mems(),
            self.globals() == before.globals(),
            match self.modules().last() {
                ModuleInstance::Defined(m) => m.module_index.0 == before.modules().len(),
                ModuleInstance::Host(m) => forall|k: int|
                    0 <= k < m.values@.len() ==> self.holds((#[trigger] m.values@[k]).value),
            },
        ensures
            self.handles_valid(),
    {
        assert forall|i: int, k: int|
            0 <= i < self.modules().len() && self.modules()[i] is Host && 0 <= k
                < self.modules()[i]->Host_0.values@.len() implies self.holds(
            (#[trigger] self.modules()[i]->Host_0.values@[k]).value,
        ) by {
            if i < before.modules().len() {
                assert(self.modules()[i] == self.modules().drop_last()[i]);
                assert(before.holds(before.modules()[i]->Host_0.values@[k].value));
            } else {
                assert(self.modules()[i] == self.modules().last());
            }
        }
        assert forall|i: int|
            0 <= i < self.modules().len() && (#[trigger] self.modules()[i]) is Defined implies
                self.modules()[i]->Defined_0.module_index.0
            == i by {
            if i < before.modules().len() {
                assert(self.modules()[i] == self.modules().drop_last()[i]);
                assert(before.modules()[i] is Defined);
            } else {
                assert(self.modules()[i] == self.modules().last());
            }
        }
    }

    /// A store of the same shape keeps the addresses.
    pub proof fn lemma_same_shape_keeps_addresses(&self, old: &Store<C>)
        requires
            self.same_shape(old),
        ensures
            self.keeps_addresses(old),
    {
        assert(self.funcs().items.take(old.funcs().items.len() as int) =~= old.funcs().items);
    }

    /// Addresses are stable over any number of loads: what keeps the
    /// addresses of a store that keeps those of a first one, keeps those of
    /// the first one.
    pub proof fn lemma_keeps_addresses_transitive(&self, earlier: &Store<C>, first: &Store<C>)
        requires
            earlier.keeps_addresses(first),
            self.keeps_addresses(earlier),
        ensures
            self.keeps_addresses(first),
    {
        lemma_stable_in_transitive(first.funcs(), earlier.funcs(), self.funcs());
        lemma_stable_in_transitive(first.tables(), earlier.tables(), self.tables());
        lemma_stable_in_transitive(first.mems(), earlier.mems(), self.mems());
        lemma_stable_in_transitive(first.globals(), earlier.globals(), self.globals());
        assert(self.funcs().items.take(first.funcs().items.len() as int)
            =~= self.funcs().items.take(earlier.funcs().items.len() as int).take(
            first.funcs().items.len() as int,
        ));
    }

    /// An address that a store resolved, a store that keeps its addresses
    /// resolves to the same handle; and the function behind the handle of
    /// a function is the same.
    pub proof fn lemma_kept_address(
        &self,
        old: &Store<C>,
        kind: ExportKind,
        module: ModuleIndex,
        index: usize,
    )
        requires
            old.handles_valid(),
            self.keeps_addresses(old),
            old.resolved(kind, module, index) is Some,
        ensures
            self.resolved(kind, module, index) == old.resolved(kind, module, index),
            kind == ExportKind::Function ==> self.funcs().items[old.resolved(
                kind,
                module,
                index,
            )->Some_0 as int]
                == old.funcs().items[old.resolved(kind, module, index)->Some_0 as int],
    {
        match kind {
            ExportKind::Function => {
                lemma_stable_resolve(old.funcs(), self.funcs(), module, index);
                let handle = old.funcs().resolve(module, index)->Some_0;
                assert(old.funcs().locals[module.0][index as int] == handle);
                assert(self.funcs().items.take(old.funcs().items.len() as int)[handle as int]
                    == self.funcs().items[handle as int]);
            },
            ExportKind::Table => {
                lemma_stable_resolve(old.tables(), self.tables(), module, index);
            },
            ExportKind::Memory => {
                lemma_stable_resolve(old.mems(), self.mems(), module, index);
            },
            ExportKind::Global => {
                lemma_stable_resolve(old.globals(), self.globals(), module, index);
            },
        }
    }
}

} // verus!
