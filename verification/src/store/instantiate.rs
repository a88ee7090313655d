//! The instantiation of a module: its plan, its steps, and the way back
//! where a step fails.
use crate::address::{FuncAddr, ModuleIndex};
use crate::executor::{invoke_func, invoked, ExecError, HostResult};
use crate::store::env_of;
use crate::func::{DefinedFunctionInstance, FuncType, FuncTypeView, FunctionInstance};
use crate::global::GlobalInstance;
use crate::linker::LinkableView;
use crate::memory::{MemoryInstance, MemoryView};
use crate::module::{
    DataSegment, DefinedModuleInstance, ElementSegment, ExportKind, FuncBody, GlobalEntry, Module,
    ModuleInstance, ResizableLimits,
};
use crate::names::Named;
use crate::store::error::{Error, ErrorView};
use crate::store::import::Slots;
use crate::store::segment::{
    data_writes, defined_name, element_writes, eval_const_expr, eval_offset, global_instances,
    handle_range, lemma_data_writes_fail, lemma_element_writes_fail, lemma_global_instances_fail,
    lemma_memory_segment_writes_fail, lemma_table_segment_writes_fail, member_addrs,
    memories_written, memory_segment_writes, memory_views, memory_write_views, memory_writes_fit,
    new_memory, new_table, table_segment_writes, table_views, table_write_views, table_writes_fit,
    tables_written, unknown_type, MemoryWrite, MemoryWriteView, OffsetEnv, TableWrite,
    TableWriteView,
};
use crate::store::Store;
use crate::table::{TableInstance, TableView};
use crate::text::push_decimal;
use crate::value::Value;
use vstd::prelude::*;
use vstd::string::*;

verus! {

/// What the instantiation of a module does to a store, as far as the
/// module and the store decide it.
pub struct Plan {
    /// The local slots that the imports give the module.
    pub slots: Slots,
    /// The number of functions that the module defines.
    pub defined: nat,
    /// The globals that the module defines.
    pub globals: Seq<GlobalInstance>,
    /// The writes of the element segments.
    pub element_writes: Seq<TableWriteView>,
    /// The writes of the data segments.
    pub data_writes: Seq<MemoryWriteView>,
}

/// The number of functions that a module defines: those that have both a
/// type index and a body.
pub open spec fn defined_count(module: Module) -> nat {
    if module.functions@.len() < module.codes@.len() {
        module.functions@.len()
    } else {
        module.codes@.len()
    }
}

impl<C> Store<C> {
    /// What the instantiation of `module` as the module number `index` does
    /// to this store, or the error that it ends in.
    ///
    /// The imports are resolved in their order. Then the functions are
    /// defined, each of which needs a type that the type section has. The
    /// globals are defined with the values of their initialisers, which see
    /// the imported globals only. The tables and memories are defined, and
    /// the element and data segments are held against the tables and
    /// memories that the module sees, imported ones and its own.
    pub open spec fn plan(&self, module: Module, index: ModuleIndex) -> Result<Plan, ErrorView> {
        match self.imported(module.imports@, module.types@) {
            Err(e) => Err(e),
            Ok(slots) => match unknown_type(
                module.functions@.take(defined_count(module) as int),
                module.types@.len(),
            ) {
                Some(t) => Err(ErrorView::UnknownType(t)),
                None => match global_instances(
                    self.globals().items,
                    slots.globals,
                    slots.globals.len() as usize,
                    module.globals@,
                ) {
                    Err(e) => Err(e),
                    Ok(globals) => {
                        let env = OffsetEnv {
                            items: self.globals().items + globals,
                            slots: slots.globals + handle_range(
                                self.globals().items.len(),
                                globals.len(),
                            ),
                            imported: slots.globals.len() as usize,
                        };
                        let table_slots = slots.tables + handle_range(
                            self.tables().items.len(),
                            module.tables@.len(),
                        );
                        match element_writes(
                            table_views(self.tables().items) + module.tables@.map_values(
                                |l: ResizableLimits| new_table(l),
                            ),
                            table_slots,
                            env,
                            index,
                            module.elements@,
                            table_slots.len(),
                        ) {
                            Err(e) => Err(e),
                            Ok(element_writes) => {
                                let mem_slots = slots.mems + handle_range(
                                    self.mems().items.len(),
                                    module.memories@.len(),
                                );
                                match data_writes(
                                    memory_views(self.mems().items) + module.memories@.map_values(
                                        |l: ResizableLimits| new_memory(l),
                                    ),
                                    mem_slots,
                                    env,
                                    module.data@,
                                    mem_slots.len(),
                                ) {
                                    Err(e) => Err(e),
                                    Ok(data_writes) => Ok(
                                        Plan {
                                            slots,
                                            defined: defined_count(module),
                                            globals,
                                            element_writes,
                                            data_writes,
                                        },
                                    ),
                                }
                            },
                        }
                    },
                }
            },
        }
    }

    /// Whether an item of the store is the function that a module defines
    /// with a signature, a body and a name.
    pub open spec fn is_defined_function(
        item: FunctionInstance<C>,
        ty: FuncTypeView,
        module: ModuleIndex,
        body: FuncBody,
        name: Seq<char>,
    ) -> bool {
        &&& item matches FunctionInstance::Defined(f)
        &&& f.ty@ == ty
        &&& f.module_index == module
        &&& f.locals == body.locals
        &&& f.code == body.code
        &&& f.name@ == name
    }

    /// Whether `funcs` is what the functions of this store become when
    /// `module` is instantiated: the functions that the module defines are
    /// added, and the module sees the imported ones and then its own.
    pub open spec fn funcs_instantiated(
        &self,
        funcs: LinkableView<FunctionInstance<C>>,
        module: Module,
        index: ModuleIndex,
        plan: Plan,
    ) -> bool {
        let base = self.funcs().items.len();
        &&& funcs.locals.remove(index.0) == self.funcs().locals
        &&& funcs.slots(index) == plan.slots.funcs + handle_range(base, plan.defined)
        &&& funcs.items.len() == base + plan.defined
        &&& funcs.items.take(base as int) == self.funcs().items
        &&& forall|j: int|
            0 <= j < plan.defined ==> Self::is_defined_function(
                #[trigger] funcs.items[base + j],
                module.types@[module.functions@[j] as int]@,
                index,
                module.codes@[j],
                defined_name((base + j) as nat),
            )
    }

    /// Whether `globals` is what the globals of this store become when
    /// `module` is instantiated, but for their values, which are `items`.
    pub open spec fn globals_instantiated(
        &self,
        globals: LinkableView<GlobalInstance>,
        items: Seq<GlobalInstance>,
        index: ModuleIndex,
        plan: Plan,
    ) -> bool {
        &&& globals.locals.remove(index.0) == self.globals().locals
        &&& globals.slots(index) == plan.slots.globals + handle_range(
            self.globals().items.len(),
            plan.globals.len(),
        )
        &&& globals.items == items
        &&& items.len() == self.globals().items.len() + plan.globals.len()
    }

    /// Whether `now` is `old` with `module` instantiated as the module
    /// number `index`, the globals holding `globals`.
    pub open spec fn instantiated(
        &self,
        old: &Store<C>,
        module: Module,
        index: ModuleIndex,
        name: Option<String>,
        plan: Plan,
        globals: Seq<GlobalInstance>,
    ) -> bool {
        &&& old.funcs_instantiated(self.funcs(), module, index, plan)
        &&& old.globals_instantiated(self.globals(), globals, index, plan)
        &&& self.tables().locals.remove(index.0) == old.tables().locals
        &&& self.tables().slots(index) == plan.slots.tables + handle_range(
            old.tables().items.len(),
            module.tables@.len(),
        )
        &&& self.tables().items.len() == old.tables().items.len() + module.tables@.len()
        &&& table_views(self.tables().items) == tables_written(
            table_views(old.tables().items) + module.tables@.map_values(
                |l: ResizableLimits| new_table(l),
            ),
            plan.element_writes,
        )
        &&& self.mems().locals.remove(index.0) == old.mems().locals
        &&& self.mems().slots(index) == plan.slots.mems + handle_range(
            old.mems().items.len(),
            module.memories@.len(),
        )
        &&& self.mems().items.len() == old.mems().items.len() + module.memories@.len()
        &&& memory_views(self.mems().items) == memories_written(
            memory_views(old.mems().items) + module.memories@.map_values(
                |l: ResizableLimits| new_memory(l),
            ),
            plan.data_writes,
        )
        &&& self.modules() == old.modules().push(
            ModuleInstance::Defined(
                DefinedModuleInstance {
                    module_index: index,
                    types: module.types,
                    exports: module.exports,
                    start_func: match module.start {
                        Some(start) => Some(FuncAddr(index, start as usize)),
                        None => None,
                    },
                },
            ),
        )
        &&& self.names() == match name {
            Some(name) => old.names().push(Named { name, value: index }),
            None => old.names(),
        }
        &&& self.contexts() == old.contexts()
    }

    /// Whether this store is what is left of `old` after the start function
    /// of `module` failed and the instantiation was taken back: the shape
    /// of `old`, and in the tables, memories and globals that `old` had
    /// what the segments and the start function wrote; `globals` is what
    /// the globals held when the start function failed.
    pub open spec fn rolled_back(
        &self,
        old: &Store<C>,
        module: Module,
        plan: Plan,
        globals: Seq<GlobalInstance>,
    ) -> bool {
        &&& self.same_shape(old)
        &&& table_views(self.tables().items) == tables_written(
            table_views(old.tables().items) + module.tables@.map_values(
                |l: ResizableLimits| new_table(l),
            ),
            plan.element_writes,
        ).take(old.tables().items.len() as int)
        &&& memory_views(self.mems().items) == memories_written(
            memory_views(old.mems().items) + module.memories@.map_values(
                |l: ResizableLimits| new_memory(l),
            ),
            plan.data_writes,
        ).take(old.mems().items.len() as int)
        &&& self.globals().items == globals.take(old.globals().items.len() as int)
    }

    /// Whether this store is `old` with something added by a module that is
    /// being instantiated as number `index`: more items, and local slots of
    /// that module.
    pub open spec fn grown_from(&self, old: &Store<C>, index: ModuleIndex) -> bool {
        &&& self.handles_valid()
        &&& self.modules() == old.modules()
        &&& self.names() == old.names()
        &&& self.contexts() == old.contexts()
        &&& old.funcs().items.len() <= self.funcs().items.len()
        &&& old.tables().items.len() <= self.tables().items.len()
        &&& old.mems().items.len() <= self.mems().items.len()
        &&& old.globals().items.len() <= self.globals().items.len()
        &&& self.funcs().items.take(old.funcs().items.len() as int) == old.funcs().items
        &&& self.tables().items.take(old.tables().items.len() as int) == old.tables().items
        &&& self.mems().items.take(old.mems().items.len() as int) == old.mems().items
        &&& self.globals().items.take(old.globals().items.len() as int) == old.globals().items
        &&& self.funcs().locals.remove(index.0) == old.funcs().locals.remove(index.0)
        &&& self.tables().locals.remove(index.0) == old.tables().locals.remove(index.0)
        &&& self.mems().locals.remove(index.0) == old.mems().locals.remove(index.0)
        &&& self.globals().locals.remove(index.0) == old.globals().locals.remove(index.0)
    }

    /// A store has grown from itself.
    pub proof fn lemma_grown_from_self(&self, index: ModuleIndex)
        requires
            self.handles_valid(),
        ensures
            self.grown_from(self, index),
    {
        assert(self.funcs().items.take(self.funcs().items.len() as int) =~= self.funcs().items);
        assert(self.tables().items.take(self.tables().items.len() as int) =~= self.tables().items);
        assert(self.mems().items.take(self.mems().items.len() as int) =~= self.mems().items);
        assert(self.globals().items.take(self.globals().items.len() as int)
            =~= self.globals().items);
    }

    /// What has grown from a store that has grown from `old` has grown from
    /// `old`.
    pub proof fn lemma_grown_from_step(&self, before: &Store<C>, old: &Store<C>, index: ModuleIndex)
        requires
            before.grown_from(old, index),
            self.handles_valid(),
            self.modules() == before.modules(),
            self.names() == before.names(),
            self.contexts() == before.contexts(),
            before.funcs().items.len() <= self.funcs().items.len(),
            before.tables().items.len() <= self.tables().items.len(),
            before.mems().items.len() <= self.mems().items.len(),
            before.globals().items.len() <= self.globals().items.len(),
            self.funcs().items.take(before.funcs().items.len() as int) =~= before.funcs().items,
            self.tables().items.take(before.tables().items.len() as int) =~= before.tables().items,
            self.mems().items.take(before.mems().items.len() as int) =~= before.mems().items,
            self.globals().items.take(before.globals().items.len() as int)
                =~= before.globals().items,
            self.funcs().locals.remove(index.0) == before.funcs().locals.remove(index.0),
            self.tables().locals.remove(index.0) == before.tables().locals.remove(index.0),
            self.mems().locals.remove(index.0) == before.mems().locals.remove(index.0),
            self.globals().locals.remove(index.0) == before.globals().locals.remove(index.0),
        ensures
            self.grown_from(old, index),
    {
        assert(self.funcs().items.take(old.funcs().items.len() as int)
            =~= self.funcs().items.take(before.funcs().items.len() as int).take(
            old.funcs().items.len() as int,
        ));
        assert(self.tables().items.take(old.tables().items.len() as int)
            =~= self.tables().items.take(before.tables().items.len() as int).take(
            old.tables().items.len() as int,
        ));
        assert(self.mems().items.take(old.mems().items.len() as int) =~= self.mems().items.take(
            before.mems().items.len() as int,
        ).take(old.mems().items.len() as int));
        assert(self.globals().items.take(old.globals().items.len() as int)
            =~= self.globals().items.take(before.globals().items.len() as int).take(
            old.globals().items.len() as int,
        ));
    }

    /// Adds the functions that a module defines: one for each type index
    /// that has a body, in their order.
    fn load_functions(
        &mut self,
        functions: &Vec<u32>,
        codes: Vec<FuncBody>,
        module_index: ModuleIndex,
        types: &Vec<FuncType>,
    ) -> (r: Result<(), Error>)
        requires
            old(self).handles_valid(),
        ensures
            final(self).handles_valid(),
            final(self).tables() == old(self).tables(),
            final(self).mems() == old(self).mems(),
            final(self).globals() == old(self).globals(),
            final(self).modules() == old(self).modules(),
            final(self).names() == old(self).names(),
            final(self).contexts() == old(self).contexts(),
            final(self).funcs().locals.remove(module_index.0) == old(self).funcs().locals.remove(
                module_index.0,
            ),
            old(self).funcs().items.len() <= final(self).funcs().items.len(),
            final(self).funcs().items.take(old(self).funcs().items.len() as int)
                == old(self).funcs().items,
            ({
                let n = if functions@.len() < codes@.len() {
                    functions@.len()
                } else {
                    codes@.len()
                };
                let base = old(self).funcs().items.len();
                match unknown_type(functions@.take(n as int), types@.len()) {
                    Some(t) => r is Err && r->Err_0@ == ErrorView::UnknownType(t),
                    None => {
                        &&& r is Ok
                        &&& final(self).funcs().items.len() == base + n
                        &&& final(self).funcs().slots(module_index) == old(self).funcs().slots(
                            module_index,
                        ) + handle_range(base, n)
                        &&& forall|j: int|
                            0 <= j < n ==> Self::is_defined_function(
                                #[trigger] final(self).funcs().items[base + j],
                                types@[functions@[j] as int]@,
                                module_index,
                                codes@[j],
                                defined_name((base + j) as nat),
                            )
                    },
                }
            }),
    {
        let ghost n = if functions@.len() < codes@.len() {
            functions@.len()
        } else {
            codes@.len()
        };
        let ghost base = old(self).funcs().items.len();
        let mut j: usize = 0;
        proof {
            assert(functions@.take(0) =~= Seq::<u32>::empty());
            assert(self.funcs().items.take(base as int) =~= old(self).funcs().items);
            assert(self.funcs().slots(module_index) =~= old(self).funcs().slots(module_index)
                + handle_range(base, 0));
        }
        for body in it: codes
            invariant
                it.seq() == codes@,
                n == if functions@.len() < codes@.len() {
                    functions@.len()
                } else {
                    codes@.len()
                },
                base == old(self).funcs().items.len(),
                j == if it.index() < n {
                    it.index() as int
                } else {
                    n as int
                },
                old(self).handles_valid(),
                self.handles_valid(),
                self.tables() == old(self).tables(),
                self.mems() == old(self).mems(),
                self.globals() == old(self).globals(),
                self.modules() == old(self).modules(),
                self.names() == old(self).names(),
                self.contexts() == old(self).contexts(),
                self.funcs().locals.remove(module_index.0) == old(self).funcs().locals.remove(
                    module_index.0,
                ),
                self.funcs().items.take(base as int) == old(self).funcs().items,
                unknown_type(functions@.take(j as int), types@.len()) is None,
                self.funcs().items.len() == base + j,
                self.funcs().slots(module_index) == old(self).funcs().slots(module_index)
                    + handle_range(base, j as nat),
                forall|k: int|
                    0 <= k < j ==> Self::is_defined_function(
                        #[trigger] self.funcs().items[base + k],
                        types@[functions@[k] as int]@,
                        module_index,
                        codes@[k],
                        defined_name((base + k) as nat),
                    ),
        {
            if j < functions.len() {
                let ghost before = *self;
                proof {
                    assert(functions@.take(j as int + 1).drop_last() =~= functions@.take(j as int));
                }
                let type_ref = functions[j];
                if type_ref as usize >= types.len() {
                    proof {
                        Self::lemma_unknown_type_found(
                            functions@.take(n as int),
                            types@.len(),
                            j as int + 1,
                        );
                        assert(functions@.take(n as int).take(j as int + 1) =~= functions@.take(
                            j as int + 1,
                        ));
                    }
                    return Err(Error::UnknownType(type_ref));
                }
                let ty = types[type_ref as usize].duplicate();
                let mut name = String::from_str("<module defined func #");
                let count = self.funcs.len();
                push_decimal(&mut name, count as u64);
                name.push('>');
                assert(name@ =~= defined_name(count as nat));
                assert(body == codes@[j as int]);
                let FuncBody { locals, code } = body;
                let instance = FunctionInstance::Defined(
                    DefinedFunctionInstance::new(name, ty, module_index, locals, code),
                );
                self.funcs.push(module_index, instance);
                proof {
                    self.lemma_handles_stay_valid(&before);
                    assert(self.funcs().locals.remove(module_index.0)
                        =~= before.funcs().locals.remove(module_index.0));
                    assert(self.funcs().items.take(base as int) =~= before.funcs().items.take(
                        base as int,
                    ));
                    assert(self.funcs().slots(module_index) =~= old(self).funcs().slots(
                        module_index,
                    ) + handle_range(base, (j + 1) as nat));
                    assert forall|k: int| 0 <= k < j + 1 implies Self::is_defined_function(
                        #[trigger] self.funcs().items[base + k],
                        types@[functions@[k] as int]@,
                        module_index,
                        codes@[k],
                        defined_name((base + k) as nat),
                    ) by {
                        if k < j {
                            assert(self.funcs().items[base + k] == before.funcs().items[base + k]);
                        }
                    }
                }
                j += 1;
            }
        }
        proof {
            assert(functions@.take(j as int) =~= functions@.take(n as int));
        }
        Ok(())
    }

    /// A type index that the type section lacks decides the whole list.
    pub proof fn lemma_unknown_type_found(functions: Seq<u32>, types: nat, upto: int)
        requires
            0 <= upto <= functions.len(),
            unknown_type(functions.take(upto), types) is Some,
        ensures
            unknown_type(functions, types) == unknown_type(functions.take(upto), types),
        decreases functions.len() - upto,
    {
        if upto < functions.len() {
            assert(functions.take(upto + 1).drop_last() =~= functions.take(upto));
            Self::lemma_unknown_type_found(functions, types, upto + 1);
        } else {
            assert(functions.take(upto) =~= functions);
        }
    }

    /// Adds the globals that a module defines, each with the value of its
    /// initialiser. Where an initialiser is unsupported nothing is added.
    fn load_globals(
        &mut self,
        entries: &Vec<GlobalEntry>,
        module_index: ModuleIndex,
        imported: usize,
    ) -> (r: Result<(), Error>)
        requires
            old(self).handles_valid(),
        ensures
            final(self).handles_valid(),
            final(self).funcs() == old(self).funcs(),
            final(self).tables() == old(self).tables(),
            final(self).mems() == old(self).mems(),
            final(self).modules() == old(self).modules(),
            final(self).names() == old(self).names(),
            final(self).contexts() == old(self).contexts(),
            final(self).globals().locals.remove(module_index.0)
                == old(self).globals().locals.remove(module_index.0),
            match global_instances(
                old(self).globals().items,
                old(self).globals().slots(module_index),
                imported,
                entries@,
            ) {
                Err(e) => r is Err && r->Err_0@ == e
                    && final(self).globals() == old(self).globals(),
                Ok(instances) => {
                    &&& r is Ok
                    &&& final(self).globals().items == old(self).globals().items + instances
                    &&& final(self).globals().slots(module_index) == old(self).globals().slots(
                        module_index,
                    ) + handle_range(old(self).globals().items.len(), instances.len())
                },
            },
    {
        let ghost items = old(self).globals().items;
        let ghost slots = old(self).globals().slots(module_index);
        let mut instances: Vec<GlobalInstance> = Vec::new();
        let mut i: usize = 0;
        proof {
            assert(entries@.take(0) =~= Seq::<GlobalEntry>::empty());
        }
        while i < entries.len()
            invariant
                i <= entries@.len(),
                *self == *old(self),
                old(self).handles_valid(),
                items == old(self).globals().items,
                slots == old(self).globals().slots(module_index),
                global_instances(items, slots, imported, entries@.take(i as int)) == Ok::<
                    Seq<GlobalInstance>,
                    ErrorView,
                >(instances@),
            decreases entries@.len() - i,
        {
            proof {
                assert(entries@.take(i as int + 1).drop_last() =~= entries@.take(i as int));
            }
            let entry = &entries[i];
            match eval_const_expr(&entry.init_expr, &self.globals, module_index, imported) {
                Ok(value) => {
                    instances.push(GlobalInstance::new(value, entry.global_type));
                },
                Err(e) => {
                    proof {
                        lemma_global_instances_fail(items, slots, imported, entries@, i as int + 1);
                    }
                    return Err(e);
                },
            }
            i += 1;
        }
        proof {
            assert(entries@.take(i as int) =~= entries@);
        }
        let ghost base = items.len();
        let mut j: usize = 0;
        proof {
            assert(self.globals().items =~= items + instances@.take(0));
            assert(self.globals().slots(module_index) =~= slots + handle_range(base, 0));
        }
        while j < instances.len()
            invariant
                j <= instances@.len(),
                old(self).handles_valid(),
                self.handles_valid(),
                items == old(self).globals().items,
                slots == old(self).globals().slots(module_index),
                base == items.len(),
                self.funcs() == old(self).funcs(),
                self.tables() == old(self).tables(),
                self.mems() == old(self).mems(),
                self.modules() == old(self).modules(),
                self.names() == old(self).names(),
                self.contexts() == old(self).contexts(),
                self.globals().locals.remove(module_index.0) == old(self).globals().locals.remove(
                    module_index.0,
                ),
                self.globals().items == items + instances@.take(j as int),
                self.globals().slots(module_index) == slots + handle_range(base, j as nat),
            decreases instances@.len() - j,
        {
            let ghost before = *self;
            self.globals.push(module_index, instances[j]);
            proof {
                self.lemma_handles_stay_valid(&before);
                assert(self.globals().locals.remove(module_index.0)
                    =~= before.globals().locals.remove(module_index.0));
                assert(self.globals().items =~= items + instances@.take(j as int + 1));
                assert(self.globals().slots(module_index)
                    =~= slots + handle_range(base, (j + 1) as nat));
            }
            j += 1;
        }
        proof {
            assert(instances@.take(j as int) =~= instances@);
        }
        Ok(())
    }

    /// The globals that the offsets of the segments of a module are
    /// evaluated with.
    pub open spec fn offset_env(&self, module: ModuleIndex, imported: usize) -> OffsetEnv {
        OffsetEnv { items: self.globals().items, slots: self.globals().slots(module), imported }
    }

    /// Adds the tables that a module defines, all slots empty.
    fn push_tables(&mut self, tables: &Vec<ResizableLimits>, module_index: ModuleIndex)
        requires
            old(self).handles_valid(),
        ensures
            final(self).handles_valid(),
            final(self).funcs() == old(self).funcs(),
            final(self).mems() == old(self).mems(),
            final(self).globals() == old(self).globals(),
            final(self).modules() == old(self).modules(),
            final(self).names() == old(self).names(),
            final(self).contexts() == old(self).contexts(),
            final(self).tables().locals.remove(module_index.0) == old(self).tables().locals.remove(
                module_index.0,
            ),
            final(self).tables().items.len() == old(self).tables().items.len() + tables@.len(),
            final(self).tables().items.take(old(self).tables().items.len() as int)
                == old(self).tables().items,
            table_views(final(self).tables().items) == table_views(old(self).tables().items)
                + tables@.map_values(|l: ResizableLimits| new_table(l)),
            final(self).tables().slots(module_index) == old(self).tables().slots(module_index)
                + handle_range(old(self).tables().items.len(), tables@.len()),
    {
        let ghost base = old(self).tables().items.len();
        let mut i: usize = 0;
        proof {
            assert(self.tables().items.take(base as int) =~= old(self).tables().items);
            assert(table_views(self.tables().items) =~= table_views(old(self).tables().items)
                + tables@.take(0).map_values(|l: ResizableLimits| new_table(l)));
            assert(self.tables().slots(module_index) =~= old(self).tables().slots(module_index)
                + handle_range(base, 0));
        }
        while i < tables.len()
            invariant
                i <= tables@.len(),
                old(self).handles_valid(),
                self.handles_valid(),
                base == old(self).tables().items.len(),
                self.funcs() == old(self).funcs(),
                self.mems() == old(self).mems(),
                self.globals() == old(self).globals(),
                self.modules() == old(self).modules(),
                self.names() == old(self).names(),
                self.contexts() == old(self).contexts(),
                self.tables().locals.remove(module_index.0) == old(self).tables().locals.remove(
                    module_index.0,
                ),
                self.tables().items.len() == base + i,
                self.tables().items.take(base as int) == old(self).tables().items,
                table_views(self.tables().items) == table_views(old(self).tables().items)
                    + tables@.take(i as int).map_values(|l: ResizableLimits| new_table(l)),
                self.tables().slots(module_index) == old(self).tables().slots(module_index)
                    + handle_range(base, i as nat),
            decreases tables@.len() - i,
        {
            let ghost before = *self;
            let limits = tables[i];
            let max: Option<usize> = match limits.maximum {
                Some(max) => Some(max as usize),
                None => None,
            };
            let instance = TableInstance::new(limits.initial as usize, max);
            assert(instance@ == new_table(limits));
            let ghost view = instance@;
            self.tables.push(module_index, instance);
            proof {
                self.lemma_handles_stay_valid(&before);
                assert(table_views(self.tables().items) =~= table_views(
                    before.tables().items,
                ).push(view));
                assert(tables@.take(i as int + 1).map_values(|l: ResizableLimits| new_table(l))
                    =~= tables@.take(i as int).map_values(|l: ResizableLimits| new_table(l)).push(
                    new_table(limits),
                ));
                assert(self.tables().locals.remove(module_index.0)
                    =~= before.tables().locals.remove(module_index.0));
                assert(self.tables().items.take(base as int) =~= before.tables().items.take(
                    base as int,
                ));
                assert(table_views(self.tables().items) =~= table_views(old(self).tables().items)
                    + tables@.take(i as int + 1).map_values(|l: ResizableLimits| new_table(l)));
                assert(self.tables().slots(module_index) =~= old(self).tables().slots(
                    module_index,
                ) + handle_range(base, (i + 1) as nat));
            }
            i += 1;
        }
        proof {
            assert(tables@.take(i as int) =~= tables@);
        }
    }

    /// Holds the element segments of a module against its tables and hands
    /// back the writes that they ask for. Nothing is written.
    fn plan_elements(
        &self,
        elements: &Vec<ElementSegment>,
        module_index: ModuleIndex,
        imported: usize,
    ) -> (r: Result<Vec<TableWrite>, Error>)
        requires
            self.handles_valid(),
        ensures
            match element_writes(
                table_views(self.tables().items),
                self.tables().slots(module_index),
                self.offset_env(module_index, imported),
                module_index,
                elements@,
                self.tables().slots(module_index).len(),
            ) {
                Ok(writes) => r is Ok && table_write_views(r->Ok_0@) == writes && table_writes_fit(
                    table_views(self.tables().items),
                    writes,
                ),
                Err(e) => r is Err && r->Err_0@ == e,
            },
    {
        let ghost views = table_views(self.tables().items);
        let ghost slots = self.tables().slots(module_index);
        let ghost env = self.offset_env(module_index, imported);
        let count = self.tables.count(module_index);
        let mut writes: Vec<TableWrite> = Vec::new();
        let mut index: usize = 0;
        proof {
            assert(table_write_views(writes@) =~= Seq::<TableWriteView>::empty());
        }
        while index < count
            invariant
                index <= count,
                count == slots.len(),
                self.handles_valid(),
                views == table_views(self.tables().items),
                slots == self.tables().slots(module_index),
                env == self.offset_env(module_index, imported),
                element_writes(views, slots, env, module_index, elements@, index as nat) == Ok::<
                    Seq<TableWriteView>,
                    ErrorView,
                >(table_write_views(writes@)),
                table_writes_fit(views, table_write_views(writes@)),
            decreases count - index,
        {
            match self.tables.resolve(module_index, index) {
                Some(handle) => {
                    assert(self.tables().locals[module_index.0][index as int] == handle);
                    let table = self.tables.get_global(handle);
                    let ghost outer = table_write_views(writes@);
                    let ghost mut more: Seq<TableWriteView> = Seq::empty();
                    let mut j: usize = 0;
                    proof {
                        assert(elements@.take(0) =~= Seq::<ElementSegment>::empty());
                        assert(outer + more =~= outer);
                    }
                    while j < elements.len()
                        invariant
                            j <= elements@.len(),
                            index < count,
                            count == slots.len(),
                            self.handles_valid(),
                            views == table_views(self.tables().items),
                            slots == self.tables().slots(module_index),
                            env == self.offset_env(module_index, imported),
                            handle == slots[index as int],
                            handle < self.tables().items.len(),
                            *table == self.tables().items[handle as int],
                            element_writes(
                                views,
                                slots,
                                env,
                                module_index,
                                elements@,
                                index as nat,
                            ) == Ok::<Seq<TableWriteView>, ErrorView>(outer),
                            table_segment_writes(
                                views,
                                env,
                                module_index,
                                index as int,
                                handle,
                                elements@.take(j as int),
                            ) == Ok::<Seq<TableWriteView>, ErrorView>(more),
                            table_write_views(writes@) == outer + more,
                            table_writes_fit(views, table_write_views(writes@)),
                        decreases elements@.len() - j,
                    {
                        proof {
                            assert(elements@.take(j as int + 1).drop_last() =~= elements@.take(
                                j as int,
                            ));
                        }
                        let segment = &elements[j];
                        if segment.index as usize == index {
                            let offset = match eval_offset(
                                &segment.offset,
                                &self.globals,
                                module_index,
                                imported,
                            ) {
                                Ok(offset) => offset,
                                Err(e) => {
                                    proof {
                                        lemma_table_segment_writes_fail(
                                            views,
                                            env,
                                            module_index,
                                            index as int,
                                            handle,
                                            elements@,
                                            j as int + 1,
                                        );
                                        lemma_element_writes_fail(
                                            views,
                                            slots,
                                            env,
                                            module_index,
                                            elements@,
                                            (index + 1) as nat,
                                            count as nat,
                                        );
                                    }
                                    return Err(e);
                                },
                            };
                            match table.validate_region(offset, segment.members.len()) {
                                Ok(()) => {},
                                Err(e) => {
                                    proof {
                                        lemma_table_segment_writes_fail(
                                            views,
                                            env,
                                            module_index,
                                            index as int,
                                            handle,
                                            elements@,
                                            j as int + 1,
                                        );
                                        lemma_element_writes_fail(
                                            views,
                                            slots,
                                            env,
                                            module_index,
                                            elements@,
                                            (index + 1) as nat,
                                            count as nat,
                                        );
                                    }
                                    return Err(Error::InvalidElementSegments(e));
                                },
                            }
                            let data = member_addrs(module_index, &segment.members);
                            let write = TableWrite { handle, offset, data };
                            let ghost view = write@;
                            let ghost before = table_write_views(writes@);
                            proof {
                                more = more.push(view);
                                assert(views[handle as int] == table@);
                                assert(view.data.len() == segment.members@.len());
                            }
                            writes.push(write);
                            proof {
                                assert(table_write_views(writes@) =~= before.push(view));
                                assert(table_write_views(writes@) =~= outer + more);
                                assert forall|k: int|
                                    0 <= k < table_write_views(
                                        writes@,
                                    ).len() implies (#[trigger] table_write_views(
                                    writes@,
                                )[k]).handle < views.len() && views[table_write_views(
                                    writes@,
                                )[k].handle as int].fits(
                                    table_write_views(writes@)[k].offset as int,
                                    table_write_views(writes@)[k].data.len() as int,
                                ) by {
                                    if k < before.len() {
                                        assert(table_write_views(writes@)[k] == before[k]);
                                    }
                                }
                            }
                        }
                        j += 1;
                    }
                    proof {
                        assert(elements@.take(j as int) =~= elements@);
                    }
                },
                None => {},
            }
            index += 1;
        }
        Ok(writes)
    }

    /// Adds the tables that a module defines and holds its element
    /// segments against the tables that it sees. Hands back the writes
    /// that the segments ask for; nothing is written yet.
    fn load_tables(
        &mut self,
        tables: &Vec<ResizableLimits>,
        elements: &Vec<ElementSegment>,
        module_index: ModuleIndex,
        imported: usize,
    ) -> (r: Result<Vec<TableWrite>, Error>)
        requires
            old(self).handles_valid(),
        ensures
            final(self).handles_valid(),
            final(self).funcs() == old(self).funcs(),
            final(self).mems() == old(self).mems(),
            final(self).globals() == old(self).globals(),
            final(self).modules() == old(self).modules(),
            final(self).names() == old(self).names(),
            final(self).contexts() == old(self).contexts(),
            final(self).tables().locals.remove(module_index.0) == old(self).tables().locals.remove(
                module_index.0,
            ),
            final(self).tables().items.len() == old(self).tables().items.len() + tables@.len(),
            final(self).tables().items.take(old(self).tables().items.len() as int)
                == old(self).tables().items,
            table_views(final(self).tables().items) == table_views(old(self).tables().items)
                + tables@.map_values(|l: ResizableLimits| new_table(l)),
            final(self).tables().slots(module_index) == old(self).tables().slots(module_index)
                + handle_range(old(self).tables().items.len(), tables@.len()),
            match element_writes(
                table_views(final(self).tables().items),
                final(self).tables().slots(module_index),
                final(self).offset_env(module_index, imported),
                module_index,
                elements@,
                final(self).tables().slots(module_index).len(),
            ) {
                Ok(writes) => r is Ok && table_write_views(r->Ok_0@) == writes && table_writes_fit(
                    table_views(final(self).tables().items),
                    writes,
                ),
                Err(e) => r is Err && r->Err_0@ == e,
            },
    {
        self.push_tables(tables, module_index);
        self.plan_elements(elements, module_index, imported)
    }

    /// Adds the memories that a module defines, all bytes zero.
    fn push_mems(&mut self, mems: &Vec<ResizableLimits>, module_index: ModuleIndex)
        requires
            old(self).handles_valid(),
            forall|i: int|
                0 <= i < mems@.len() ==> (#[trigger] mems@[i]).initial * crate::memory::PAGE_SIZE
                    <= usize::MAX,
        ensures
            final(self).handles_valid(),
            final(self).funcs() == old(self).funcs(),
            final(self).tables() == old(self).tables(),
            final(self).globals() == old(self).globals(),
            final(self).modules() == old(self).modules(),
            final(self).names() == old(self).names(),
            final(self).contexts() == old(self).contexts(),
            final(self).mems().locals.remove(module_index.0) == old(self).mems().locals.remove(
                module_index.0,
            ),
            final(self).mems().items.len() == old(self).mems().items.len() + mems@.len(),
            final(self).mems().items.take(old(self).mems().items.len() as int)
                == old(self).mems().items,
            memory_views(final(self).mems().items) == memory_views(old(self).mems().items)
                + mems@.map_values(|l: ResizableLimits| new_memory(l)),
            final(self).mems().slots(module_index) == old(self).mems().slots(module_index)
                + handle_range(old(self).mems().items.len(), mems@.len()),
    {
        let ghost base = old(self).mems().items.len();
        let mut i: usize = 0;
        proof {
            assert(self.mems().items.take(base as int) =~= old(self).mems().items);
            assert(memory_views(self.mems().items) =~= memory_views(old(self).mems().items)
                + mems@.take(0).map_values(|l: ResizableLimits| new_memory(l)));
            assert(self.mems().slots(module_index) =~= old(self).mems().slots(module_index)
                + handle_range(base, 0));
        }
        while i < mems.len()
            invariant
                i <= mems@.len(),
                forall|i: int|
                    0 <= i < mems@.len() ==> (#[trigger] mems@[i]).initial
                        * crate::memory::PAGE_SIZE <= usize::MAX,
                old(self).handles_valid(),
                self.handles_valid(),
                base == old(self).mems().items.len(),
                self.funcs() == old(self).funcs(),
                self.tables() == old(self).tables(),
                self.globals() == old(self).globals(),
                self.modules() == old(self).modules(),
                self.names() == old(self).names(),
                self.contexts() == old(self).contexts(),
                self.mems().locals.remove(module_index.0) == old(self).mems().locals.remove(
                    module_index.0,
                ),
                self.mems().items.len() == base + i,
                self.mems().items.take(base as int) == old(self).mems().items,
                memory_views(self.mems().items) == memory_views(old(self).mems().items)
                    + mems@.take(i as int).map_values(|l: ResizableLimits| new_memory(l)),
                self.mems().slots(module_index) == old(self).mems().slots(module_index)
                    + handle_range(base, i as nat),
            decreases mems@.len() - i,
        {
            let ghost before = *self;
            let limits = mems[i];
            let max: Option<usize> = match limits.maximum {
                Some(max) => Some(max as usize),
                None => None,
            };
            assert(mems@[i as int].initial * crate::memory::PAGE_SIZE <= usize::MAX);
            let instance = MemoryInstance::new(limits.initial as usize, max);
            assert(instance@ == new_memory(limits));
            let ghost view = instance@;
            self.mems.push(module_index, instance);
            proof {
                self.lemma_handles_stay_valid(&before);
                assert(memory_views(self.mems().items) =~= memory_views(before.mems().items).push(
                    view,
                ));
                assert(mems@.take(i as int + 1).map_values(|l: ResizableLimits| new_memory(l))
                    =~= mems@.take(i as int).map_values(|l: ResizableLimits| new_memory(l)).push(
                    new_memory(limits),
                ));
                assert(self.mems().locals.remove(module_index.0) =~= before.mems().locals.remove(
                    module_index.0,
                ));
                assert(self.mems().items.take(base as int) =~= before.mems().items.take(
                    base as int,
                ));
                assert(memory_views(self.mems().items) =~= memory_views(old(self).mems().items)
                    + mems@.take(i as int + 1).map_values(|l: ResizableLimits| new_memory(l)));
                assert(self.mems().slots(module_index) =~= old(self).mems().slots(module_index)
                    + handle_range(base, (i + 1) as nat));
            }
            i += 1;
        }
        proof {
            assert(mems@.take(i as int) =~= mems@);
        }
    }

    /// Holds the data segments of a module against its memories and hands
    /// back the writes that they ask for. Nothing is written.
    fn plan_data(&self, data: &Vec<DataSegment>, module_index: ModuleIndex, imported: usize) -> (r:
        Result<Vec<MemoryWrite>, Error>)
        requires
            self.handles_valid(),
        ensures
            match data_writes(
                memory_views(self.mems().items),
                self.mems().slots(module_index),
                self.offset_env(module_index, imported),
                data@,
                self.mems().slots(module_index).len(),
            ) {
                Ok(writes) => r is Ok && memory_write_views(r->Ok_0@, data@) == writes
                    && memory_writes_fit(memory_views(self.mems().items), writes) && forall|k: int|
                    0 <= k < r->Ok_0@.len() ==> (#[trigger] r->Ok_0@[k]).segment < data@.len(),
                Err(e) => r is Err && r->Err_0@ == e,
            },
    {
        let ghost views = memory_views(self.mems().items);
        let ghost slots = self.mems().slots(module_index);
        let ghost env = self.offset_env(module_index, imported);
        let count = self.mems.count(module_index);
        let mut writes: Vec<MemoryWrite> = Vec::new();
        let mut index: usize = 0;
        proof {
            assert(memory_write_views(writes@, data@) =~= Seq::<MemoryWriteView>::empty());
        }
        while index < count
            invariant
                index <= count,
                count == slots.len(),
                self.handles_valid(),
                views == memory_views(self.mems().items),
                slots == self.mems().slots(module_index),
                env == self.offset_env(module_index, imported),
                data_writes(views, slots, env, data@, index as nat) == Ok::<
                    Seq<MemoryWriteView>,
                    ErrorView,
                >(memory_write_views(writes@, data@)),
                memory_writes_fit(views, memory_write_views(writes@, data@)),
                forall|k: int| 0 <= k < writes@.len()
                    ==> (#[trigger] writes@[k]).segment < data@.len(),
            decreases count - index,
        {
            match self.mems.resolve(module_index, index) {
                Some(handle) => {
                    assert(self.mems().locals[module_index.0][index as int] == handle);
                    let memory = self.mems.get_global(handle);
                    let ghost outer = memory_write_views(writes@, data@);
                    let ghost mut more: Seq<MemoryWriteView> = Seq::empty();
                    let mut j: usize = 0;
                    proof {
                        assert(data@.take(0) =~= Seq::<DataSegment>::empty());
                        assert(outer + more =~= outer);
                    }
                    while j < data.len()
                        invariant
                            j <= data@.len(),
                            index < count,
                            count == slots.len(),
                            self.handles_valid(),
                            views == memory_views(self.mems().items),
                            slots == self.mems().slots(module_index),
                            env == self.offset_env(module_index, imported),
                            handle == slots[index as int],
                            handle < self.mems().items.len(),
                            *memory == self.mems().items[handle as int],
                            data_writes(views, slots, env, data@, index as nat) == Ok::<
                                Seq<MemoryWriteView>,
                                ErrorView,
                            >(outer),
                            memory_segment_writes(
                                views,
                                env,
                                index as int,
                                handle,
                                data@.take(j as int),
                            ) == Ok::<Seq<MemoryWriteView>, ErrorView>(more),
                            memory_write_views(writes@, data@) == outer + more,
                            memory_writes_fit(views, memory_write_views(writes@, data@)),
                            forall|k: int|
                                0 <= k < writes@.len() ==> (#[trigger] writes@[k]).segment
                                    < data@.len(),
                        decreases data@.len() - j,
                    {
                        proof {
                            assert(data@.take(j as int + 1).drop_last() =~= data@.take(j as int));
                        }
                        let segment = &data[j];
                        if segment.index as usize == index {
                            let offset = match eval_offset(
                                &segment.offset,
                                &self.globals,
                                module_index,
                                imported,
                            ) {
                                Ok(offset) => offset,
                                Err(e) => {
                                    proof {
                                        lemma_memory_segment_writes_fail(
                                            views,
                                            env,
                                            index as int,
                                            handle,
                                            data@,
                                            j as int + 1,
                                        );
                                        lemma_data_writes_fail(
                                            views,
                                            slots,
                                            env,
                                            data@,
                                            (index + 1) as nat,
                                            count as nat,
                                        );
                                    }
                                    return Err(e);
                                },
                            };
                            match memory.validate_region(offset, segment.value.len()) {
                                Ok(()) => {},
                                Err(e) => {
                                    proof {
                                        lemma_memory_segment_writes_fail(
                                            views,
                                            env,
                                            index as int,
                                            handle,
                                            data@,
                                            j as int + 1,
                                        );
                                        lemma_data_writes_fail(
                                            views,
                                            slots,
                                            env,
                                            data@,
                                            (index + 1) as nat,
                                            count as nat,
                                        );
                                    }
                                    return Err(Error::InvalidDataSegments(e));
                                },
                            }
                            let write = MemoryWrite { handle, offset, segment: j };
                            let ghost view = MemoryWriteView {
                                handle,
                                offset,
                                data: segment.value@,
                            };
                            let ghost before = memory_write_views(writes@, data@);
                            proof {
                                more = more.push(view);
                                assert(views[handle as int] == memory@);
                            }
                            writes.push(write);
                            proof {
                                assert(memory_write_views(writes@, data@) =~= before.push(view));
                                assert(memory_write_views(writes@, data@) =~= outer + more);
                                assert forall|k: int|
                                    0 <= k < memory_write_views(
                                        writes@,
                                        data@,
                                    ).len() implies (#[trigger] memory_write_views(
                                    writes@,
                                    data@,
                                )[k]).handle < views.len() && views[memory_write_views(
                                    writes@,
                                    data@,
                                )[k].handle as int].fits(
                                    memory_write_views(writes@, data@)[k].offset as int,
                                    memory_write_views(writes@, data@)[k].data.len() as int,
                                ) by {
                                    if k < before.len() {
                                        assert(memory_write_views(writes@, data@)[k] == before[k]);
                                    }
                                }
                            }
                        }
                        j += 1;
                    }
                    proof {
                        assert(data@.take(j as int) =~= data@);
                    }
                },
                None => {},
            }
            index += 1;
        }
        Ok(writes)
    }

    /// Adds the memories that a module defines and holds its data segments
    /// against the memories that it sees. Hands back the writes that the
    /// segments ask for; nothing is written yet.
    fn load_mems(
        &mut self,
        mems: &Vec<ResizableLimits>,
        data: &Vec<DataSegment>,
        module_index: ModuleIndex,
        imported: usize,
    ) -> (r: Result<Vec<MemoryWrite>, Error>)
        requires
            old(self).handles_valid(),
            forall|i: int|
                0 <= i < mems@.len() ==> (#[trigger] mems@[i]).initial * crate::memory::PAGE_SIZE
                    <= usize::MAX,
        ensures
            final(self).handles_valid(),
            final(self).funcs() == old(self).funcs(),
            final(self).tables() == old(self).tables(),
            final(self).globals() == old(self).globals(),
            final(self).modules() == old(self).modules(),
            final(self).names() == old(self).names(),
            final(self).contexts() == old(self).contexts(),
            final(self).mems().locals.remove(module_index.0) == old(self).mems().locals.remove(
                module_index.0,
            ),
            final(self).mems().items.len() == old(self).mems().items.len() + mems@.len(),
            final(self).mems().items.take(old(self).mems().items.len() as int)
                == old(self).mems().items,
            memory_views(final(self).mems().items) == memory_views(old(self).mems().items)
                + mems@.map_values(|l: ResizableLimits| new_memory(l)),
            final(self).mems().slots(module_index) == old(self).mems().slots(module_index)
                + handle_range(old(self).mems().items.len(), mems@.len()),
            match data_writes(
                memory_views(final(self).mems().items),
                final(self).mems().slots(module_index),
                final(self).offset_env(module_index, imported),
                data@,
                final(self).mems().slots(module_index).len(),
            ) {
                Ok(writes) => r is Ok && memory_write_views(r->Ok_0@, data@) == writes
                    && memory_writes_fit(memory_views(final(self).mems().items), writes)
                    && forall|k: int|
                    0 <= k < r->Ok_0@.len() ==> (#[trigger] r->Ok_0@[k]).segment < data@.len(),
                Err(e) => r is Err && r->Err_0@ == e,
            },
    {
        self.push_mems(mems, module_index);
        self.plan_data(data, module_index, imported)
    }

    /// Makes the writes of the element segments, in their order.
    fn write_elements(&mut self, writes: &Vec<TableWrite>)
        requires
            old(self).handles_valid(),
            table_writes_fit(table_views(old(self).tables().items), table_write_views(writes@)),
        ensures
            final(self).handles_valid(),
            final(self).funcs() == old(self).funcs(),
            final(self).mems() == old(self).mems(),
            final(self).globals() == old(self).globals(),
            final(self).modules() == old(self).modules(),
            final(self).names() == old(self).names(),
            final(self).contexts() == old(self).contexts(),
            final(self).tables().locals == old(self).tables().locals,
            final(self).tables().items.len() == old(self).tables().items.len(),
            table_views(final(self).tables().items) == tables_written(
                table_views(old(self).tables().items),
                table_write_views(writes@),
            ),
    {
        let ghost start = table_views(old(self).tables().items);
        let ghost all = table_write_views(writes@);
        let mut i: usize = 0;
        proof {
            assert(all.take(0) =~= Seq::<TableWriteView>::empty());
        }
        while i < writes.len()
            invariant
                i <= writes@.len(),
                old(self).handles_valid(),
                self.handles_valid(),
                start == table_views(old(self).tables().items),
                all == table_write_views(writes@),
                table_writes_fit(start, all),
                self.funcs() == old(self).funcs(),
                self.mems() == old(self).mems(),
                self.globals() == old(self).globals(),
                self.modules() == old(self).modules(),
                self.names() == old(self).names(),
                self.contexts() == old(self).contexts(),
                self.tables().locals == old(self).tables().locals,
                self.tables().items.len() == old(self).tables().items.len(),
                table_views(self.tables().items) == tables_written(start, all.take(i as int)),
                forall|h: int|
                    0 <= h < start.len() ==> (#[trigger] table_views(
                        self.tables().items,
                    )[h]).elements.len() == start[h].elements.len(),
            decreases writes@.len() - i,
        {
            let ghost before = table_views(self.tables().items);
            let write = &writes[i];
            proof {
                assert(all.take(i as int + 1).drop_last() =~= all.take(i as int));
                assert(all[i as int] == write@);
                assert(all[i as int].handle < start.len());
                assert(before[write.handle as int].elements.len()
                    == start[write.handle as int].elements.len());
            }
            let ghost unwritten = *self;
            let _ = self.tables.get_global_mut(write.handle).initialize(write.offset, &write.data);
            proof {
                self.lemma_handles_stay_valid(&unwritten);
                assert(table_views(self.tables().items) =~= before.update(
                    write.handle as int,
                    TableView {
                        elements: before[write.handle as int].initialized(
                            write.offset as int,
                            write.data@,
                        ),
                        ..before[write.handle as int]
                    },
                ));
            }
            i += 1;
        }
        proof {
            assert(all.take(i as int) =~= all);
        }
    }

    /// Makes the writes of the data segments, in their order.
    fn write_data(&mut self, writes: &Vec<MemoryWrite>, data: &Vec<DataSegment>)
        requires
            old(self).handles_valid(),
            memory_writes_fit(
                memory_views(old(self).mems().items),
                memory_write_views(writes@, data@),
            ),
            forall|k: int| 0 <= k < writes@.len() ==> (#[trigger] writes@[k]).segment < data@.len(),
        ensures
            final(self).handles_valid(),
            final(self).funcs() == old(self).funcs(),
            final(self).tables() == old(self).tables(),
            final(self).globals() == old(self).globals(),
            final(self).modules() == old(self).modules(),
            final(self).names() == old(self).names(),
            final(self).contexts() == old(self).contexts(),
            final(self).mems().locals == old(self).mems().locals,
            final(self).mems().items.len() == old(self).mems().items.len(),
            memory_views(final(self).mems().items) == memories_written(
                memory_views(old(self).mems().items),
                memory_write_views(writes@, data@),
            ),
    {
        let ghost start = memory_views(old(self).mems().items);
        let ghost all = memory_write_views(writes@, data@);
        let mut i: usize = 0;
        proof {
            assert(all.take(0) =~= Seq::<MemoryWriteView>::empty());
        }
        while i < writes.len()
            invariant
                i <= writes@.len(),
                old(self).handles_valid(),
                self.handles_valid(),
                start == memory_views(old(self).mems().items),
                all == memory_write_views(writes@, data@),
                memory_writes_fit(start, all),
                forall|k: int|
                    0 <= k < writes@.len() ==> (#[trigger] writes@[k]).segment < data@.len(),
                self.funcs() == old(self).funcs(),
                self.tables() == old(self).tables(),
                self.globals() == old(self).globals(),
                self.modules() == old(self).modules(),
                self.names() == old(self).names(),
                self.contexts() == old(self).contexts(),
                self.mems().locals == old(self).mems().locals,
                self.mems().items.len() == old(self).mems().items.len(),
                memory_views(self.mems().items) == memories_written(start, all.take(i as int)),
                forall|h: int|
                    0 <= h < start.len() ==> (#[trigger] memory_views(
                        self.mems().items,
                    )[h]).bytes.len() == start[h].bytes.len(),
            decreases writes@.len() - i,
        {
            let ghost before = memory_views(self.mems().items);
            let write = writes[i];
            proof {
                assert(all.take(i as int + 1).drop_last() =~= all.take(i as int));
                assert(all[i as int].handle == write.handle);
                assert(all[i as int].handle < start.len());
                assert(before[write.handle as int].bytes.len()
                    == start[write.handle as int].bytes.len());
            }
            let bytes = &data[write.segment].value;
            let ghost unwritten = *self;
            let _ = self.mems.get_global_mut(write.handle).store(write.offset, bytes);
            proof {
                self.lemma_handles_stay_valid(&unwritten);
                assert(memory_views(self.mems().items) =~= before.update(
                    write.handle as int,
                    MemoryView {
                        bytes: before[write.handle as int].written(write.offset as int, bytes@),
                        ..before[write.handle as int]
                    },
                ));
            }
            i += 1;
        }
        proof {
            assert(all.take(i as int) =~= all);
        }
    }

    /// Instantiates a module up to its start function: resolves its
    /// imports, defines its functions, globals, tables and memories,
    /// applies its segments, appends it to the module table and binds its
    /// name.
    fn load_parity_module_internal(
        &mut self,
        name: Option<String>,
        parity_module: Module,
        module_index: ModuleIndex,
    ) -> (r: Result<ModuleIndex, Error>)
        requires
            old(self).wf(),
            old(self).modules().len() < u32::MAX,
            module_index.0 == old(self).modules().len(),
            forall|i: int|
                0 <= i < parity_module.memories@.len() ==> (
                #[trigger] parity_module.memories@[i]).initial * crate::memory::PAGE_SIZE
                    <= usize::MAX,
        ensures
            match old(self).plan(parity_module, module_index) {
                Err(e) => r is Err && r->Err_0@ == e && final(self).grown_from(
                    old(self),
                    module_index,
                ),
                Ok(plan) => {
                    &&& r == Ok::<ModuleIndex, Error>(module_index)
                    &&& final(self).wf()
                    &&& final(self).instantiated(
                        old(self),
                        parity_module,
                        module_index,
                        name,
                        plan,
                        old(self).globals().items + plan.globals,
                    )
                },
            },
    {
        let Module {
            types,
            imports,
            functions,
            tables,
            memories,
            globals,
            exports,
            start,
            elements,
            codes,
            data,
        } = parity_module;
        let ghost module = parity_module;
        let ghost origin = *old(self);
        proof {
            origin.lemma_grown_from_self(module_index);
        }
        match self.load_imports(&imports, module_index, &types) {
            Ok(()) => {},
            Err(e) => {
                proof {
                    self.lemma_grown_from_step(&origin, &origin, module_index);
                }
                return Err(e);
            },
        }
        let ghost slots = origin.imported(imports@, types@)->Ok_0;
        let ghost linked = *self;
        proof {
            self.lemma_grown_from_step(&origin, &origin, module_index);
        }
        let imported = self.globals.count(module_index);
        match self.load_functions(&functions, codes, module_index, &types) {
            Ok(()) => {},
            Err(e) => {
                proof {
                    self.lemma_grown_from_step(&linked, &origin, module_index);
                }
                return Err(e);
            },
        }
        let ghost with_funcs = *self;
        proof {
            self.lemma_grown_from_step(&linked, &origin, module_index);
        }
        match self.load_globals(&globals, module_index, imported) {
            Ok(()) => {},
            Err(e) => {
                return Err(e);
            },
        }
        let ghost instances = global_instances(
            origin.globals().items,
            slots.globals,
            imported,
            globals@,
        )->Ok_0;
        let ghost with_globals = *self;
        proof {
            assert(self.globals().items.take(with_funcs.globals().items.len() as int)
                =~= with_funcs.globals().items);
            self.lemma_grown_from_step(&with_funcs, &origin, module_index);
        }
        let table_writes = match self.load_tables(&tables, &elements, module_index, imported) {
            Ok(writes) => writes,
            Err(e) => {
                proof {
                    self.lemma_grown_from_step(&with_globals, &origin, module_index);
                }
                return Err(e);
            },
        };
        let ghost with_tables = *self;
        proof {
            self.lemma_grown_from_step(&with_globals, &origin, module_index);
        }
        let mem_writes = match self.load_mems(&memories, &data, module_index, imported) {
            Ok(writes) => writes,
            Err(e) => {
                proof {
                    self.lemma_grown_from_step(&with_tables, &origin, module_index);
                }
                return Err(e);
            },
        };
        proof {
            self.lemma_grown_from_step(&with_tables, &origin, module_index);
        }
        let ghost plan = old(self).plan(module, module_index)->Ok_0;
        self.write_elements(&table_writes);
        self.write_data(&mem_writes, &data);
        let start_func = match start {
            Some(start) => Some(FuncAddr(module_index, start as usize)),
            None => None,
        };
        let instance = DefinedModuleInstance::new(module_index, types, exports, start_func);
        let ghost written = *self;
        self.modules.push(ModuleInstance::Defined(instance));
        proof {
            assert(self.modules().drop_last() =~= written.modules());
            self.lemma_handles_valid_with_module(&written);
        }
        let ghost appended = *self;
        if let Some(name) = name {
            self.module_index_by_name.push(Named { name, value: module_index });
        }
        proof {
            self.lemma_handles_stay_valid(&appended);
            assert(old(self).funcs().locals.remove(module_index.0) =~= old(self).funcs().locals);
            assert(old(self).tables().locals.remove(module_index.0) =~= old(self).tables().locals);
            assert(old(self).mems().locals.remove(module_index.0) =~= old(self).mems().locals);
            assert(old(self).globals().locals.remove(module_index.0)
                =~= old(self).globals().locals);
            assert(plan.slots == slots);
            assert(plan.globals == instances);
            assert(plan.element_writes == table_write_views(table_writes@));
            assert(plan.data_writes == memory_write_views(mem_writes@, data@));
            assert(old(self).funcs_instantiated(self.funcs(), module, module_index, plan));
            assert(old(self).globals_instantiated(
                self.globals(),
                old(self).globals().items + plan.globals,
                module_index,
                plan,
            ));
            assert(self.tables().locals.remove(module_index.0) == old(self).tables().locals);
            assert(self.tables().slots(module_index) == plan.slots.tables + handle_range(
                old(self).tables().items.len(),
                module.tables@.len(),
            ));
            assert(table_views(self.tables().items) == tables_written(
                table_views(old(self).tables().items) + module.tables@.map_values(
                    |l: ResizableLimits| new_table(l),
                ),
                plan.element_writes,
            ));
            assert(self.mems().locals.remove(module_index.0) == old(self).mems().locals);
            assert(memory_views(self.mems().items) == memories_written(
                memory_views(old(self).mems().items) + module.memories@.map_values(
                    |l: ResizableLimits| new_memory(l),
                ),
                plan.data_writes,
            ));
            assert(self.handles_valid());
            assert forall|m: u32| #[trigger]
                self.funcs().locals.contains_key(m) implies m <= module_index.0 by {
                if m != module_index.0 {
                    assert(self.funcs().locals.remove(module_index.0).contains_key(m));
                }
            }
            assert forall|m: u32| #[trigger]
                self.tables().locals.contains_key(m) implies m <= module_index.0 by {
                if m != module_index.0 {
                    assert(self.tables().locals.remove(module_index.0).contains_key(m));
                }
            }
            assert forall|m: u32| #[trigger]
                self.mems().locals.contains_key(m) implies m <= module_index.0 by {
                if m != module_index.0 {
                    assert(self.mems().locals.remove(module_index.0).contains_key(m));
                }
            }
            assert forall|m: u32| #[trigger]
                self.globals().locals.contains_key(m) implies m <= module_index.0 by {
                if m != module_index.0 {
                    assert(self.globals().locals.remove(module_index.0).contains_key(m));
                }
            }
        }
        Ok(module_index)
    }

    /// Whether this store and `r` are what the start function of a module
    /// leaves behind that was instantiated in `old` as the plan says. The
    /// start function ran on `funcs` and `defined`, the functions and
    /// globals right after the instantiation; the host functions answered
    /// `hosts`; the run gave `run` and left the globals as `globals`. A run
    /// that ends leaves the module instantiated; a run that traps, or is
    /// given up, takes the module back.
    pub open spec fn started_from(
        &self,
        old: &Store<C>,
        name: Option<String>,
        module: Module,
        plan: Plan,
        fuel: u64,
        r: Result<ModuleIndex, Error>,
        funcs: LinkableView<FunctionInstance<C>>,
        defined: LinkableView<GlobalInstance>,
        hosts: Seq<HostResult>,
        run: Result<Vec<Value>, ExecError>,
        globals: Seq<GlobalInstance>,
    ) -> bool {
        let index = ModuleIndex(old.modules().len() as u32);
        &&& module.start is Some
        &&& old.funcs_instantiated(funcs, module, index, plan)
        &&& old.globals_instantiated(
            defined,
            old.globals().items + plan.globals,
            index,
            plan,
        )
        &&& invoked(
            env_of(funcs, defined),
            FuncAddr(index, module.start->Some_0 as usize),
            Seq::empty(),
            hosts,
            fuel,
            globals,
            run,
        )
        &&& match run {
            Ok(_) => r == Ok::<ModuleIndex, Error>(index) && self.instantiated(
                old,
                module,
                index,
                name,
                plan,
                globals,
            ),
            Err(trap) => r is Err && r->Err_0@ == ErrorView::FailedEntryFunction(trap@)
                && self.rolled_back(old, module, plan, globals),
        }
    }

    /// Whether this store and `r` are what the load of `module` into `old`
    /// gives, the start function being granted `fuel` steps.
    ///
    /// Where the plan is an error, that error comes and the store is as it
    /// was. Else the module gets the next index. Without a start function
    /// the store is `old` with the module instantiated. With one, the start
    /// function runs on the store with the module instantiated and decides
    /// what comes.
    pub open spec fn loaded_from(
        &self,
        old: &Store<C>,
        name: Option<String>,
        module: Module,
        fuel: u64,
        r: Result<ModuleIndex, Error>,
    ) -> bool {
        let index = ModuleIndex(old.modules().len() as u32);
        match old.plan(module, index) {
            Err(e) => r is Err && r->Err_0@ == e && self.same_as(old),
            Ok(plan) => if module.start is None {
                r == Ok::<ModuleIndex, Error>(index) && self.instantiated(
                    old,
                    module,
                    index,
                    name,
                    plan,
                    old.globals().items + plan.globals,
                )
            } else {
                exists|
                    funcs: LinkableView<FunctionInstance<C>>,
                    defined: LinkableView<GlobalInstance>,
                    hosts: Seq<HostResult>,
                    run: Result<Vec<Value>, ExecError>,
                    globals: Seq<GlobalInstance>,
                | #[trigger]
                    self.started_from(
                        old,
                        name,
                        module,
                        plan,
                        fuel,
                        r,
                        funcs,
                        defined,
                        hosts,
                        run,
                        globals,
                    )
            },
        }
    }

    /// Takes back what a module that is being instantiated as number
    /// `module_index` has added: its local slots, the items from the given
    /// counts on, and the modules and names from the given counts on.
    fn rollback(
        &mut self,
        module_index: ModuleIndex,
        funcs: usize,
        tables: usize,
        mems: usize,
        globals: usize,
        modules: usize,
        names: usize,
    )
        requires
            funcs <= old(self).funcs().items.len(),
            tables <= old(self).tables().items.len(),
            mems <= old(self).mems().items.len(),
            globals <= old(self).globals().items.len(),
            modules <= old(self).modules().len(),
            names <= old(self).names().len(),
        ensures
            final(self).funcs().items == old(self).funcs().items.take(funcs as int),
            final(self).tables().items == old(self).tables().items.take(tables as int),
            final(self).mems().items == old(self).mems().items.take(mems as int),
            final(self).globals().items == old(self).globals().items.take(globals as int),
            final(self).funcs().locals == old(self).funcs().locals.remove(module_index.0),
            final(self).tables().locals == old(self).tables().locals.remove(module_index.0),
            final(self).mems().locals == old(self).mems().locals.remove(module_index.0),
            final(self).globals().locals == old(self).globals().locals.remove(module_index.0),
            final(self).modules() == old(self).modules().take(modules as int),
            final(self).names() == old(self).names().take(names as int),
            final(self).contexts() == old(self).contexts(),
    {
        self.funcs.remove_module(module_index);
        self.tables.remove_module(module_index);
        self.mems.remove_module(module_index);
        self.globals.remove_module(module_index);
        self.funcs.discard_from(funcs);
        self.tables.discard_from(tables);
        self.mems.discard_from(mems);
        self.globals.discard_from(globals);
        self.modules.truncate(modules);
        self.module_index_by_name.truncate(names);
    }

    /// Instantiates a module and runs its start function, for at most
    /// `fuel` steps.
    ///
    /// Where the instantiation succeeds the module is appended to the
    /// module table, under its name if it has one, and its index is handed
    /// back. Where it fails, in whatever step, what it added is taken back:
    /// the store has the modules, names, functions and local slots that it
    /// had, and as many tables, memories and globals. A failure before the
    /// start function leaves the store as it was altogether.
    pub fn load_parity_module(
        &mut self,
        name: Option<String>,
        parity_module: Module,
        fuel: u64,
    ) -> (r: Result<ModuleIndex, Error>)
        requires
            old(self).wf(),
            old(self).modules().len() < u32::MAX,
            forall|i: int|
                0 <= i < parity_module.memories@.len() ==> (
                #[trigger] parity_module.memories@[i]).initial * crate::memory::PAGE_SIZE
                    <= usize::MAX,
        ensures
            final(self).wf(),
            final(self).keeps_addresses(old(self)),
            r is Err ==> final(self).same_shape(old(self)),
            final(self).loaded_from(old(self), name, parity_module, fuel, r),
    {
        let module_index = ModuleIndex(self.modules.len() as u32);
        let funcs = self.funcs.len();
        let tables = self.tables.len();
        let mems = self.mems.len();
        let globals = self.globals.len();
        let modules = self.modules.len();
        let names = self.module_index_by_name.len();
        let start = parity_module.start;
        let ghost module = parity_module;
        let ghost plan = old(self).plan(module, module_index);
        proof {
            assert(old(self).funcs().locals.remove(module_index.0) =~= old(self).funcs().locals);
            assert(old(self).tables().locals.remove(module_index.0) =~= old(self).tables().locals);
            assert(old(self).mems().locals.remove(module_index.0) =~= old(self).mems().locals);
            assert(old(self).globals().locals.remove(module_index.0)
                =~= old(self).globals().locals);
            assert(old(self).modules().take(modules as int) =~= old(self).modules());
            assert(old(self).names().take(names as int) =~= old(self).names());
        }
        match self.load_parity_module_internal(name, parity_module, module_index) {
            Err(e) => {
                self.rollback(module_index, funcs, tables, mems, globals, modules, names);
                proof {
                    assert(self.funcs() == old(self).funcs());
                    assert(self.tables() == old(self).tables());
                    assert(self.mems() == old(self).mems());
                    assert(self.globals() == old(self).globals());
                    self.lemma_same_shape_keeps_addresses(old(self));
                }
                return Err(e);
            },
            Ok(_) => {},
        }
        let ghost loaded = *self;
        proof {
            self.lemma_instantiated_keeps_addresses(
                old(self),
                module,
                module_index,
                name,
                plan->Ok_0,
                old(self).globals().items + plan->Ok_0.globals,
            );
        }
        let start = match start {
            Some(start) => start,
            None => {
                return Ok(module_index);
            },
        };
        let run = invoke_func(FuncAddr(module_index, start as usize), Vec::new(), self, fuel);
        let ghost hosts = choose|hosts: Seq<HostResult>| #[trigger]
            invoked(
                loaded.env(),
                FuncAddr(module_index, start as usize),
                Seq::<Value>::empty(),
                hosts,
                fuel,
                self.globals().items,
                run,
            );
        let ghost ran = *self;
        match run {
            Ok(_) => {
                proof {
                    self.lemma_instantiated_keeps_addresses(
                        old(self),
                        module,
                        module_index,
                        name,
                        plan->Ok_0,
                        self.globals().items,
                    );
                    assert(self.started_from(
                        old(self),
                        name,
                        module,
                        plan->Ok_0,
                        fuel,
                        Ok(module_index),
                        loaded.funcs(),
                        loaded.globals(),
                        hosts,
                        run,
                        self.globals().items,
                    ));
                }
                Ok(module_index)
            },
            Err(e) => {
                self.rollback(module_index, funcs, tables, mems, globals, modules, names);
                proof {
                    assert(old(self).modules().push(loaded.modules().last()).take(modules as int)
                        =~= old(self).modules());
                    assert(self.names() =~= old(self).names());
                    assert(self.funcs() == old(self).funcs());
                    assert(table_views(self.tables().items) =~= table_views(
                        ran.tables().items,
                    ).take(tables as int));
                    assert(memory_views(self.mems().items) =~= memory_views(ran.mems().items).take(
                        mems as int,
                    ));
                    assert(self.tables().locals == old(self).tables().locals);
                    assert(self.mems().locals == old(self).mems().locals);
                    assert(self.globals().locals == old(self).globals().locals);
                    assert(self.modules() == old(self).modules());
                    assert(self.same_shape(old(self)));
                    self.lemma_same_shape_keeps_addresses(old(self));
                    assert(self.started_from(
                        old(self),
                        name,
                        module,
                        plan->Ok_0,
                        fuel,
                        Err(Error::FailedEntryFunction(e)),
                        loaded.funcs(),
                        loaded.globals(),
                        hosts,
                        run,
                        ran.globals().items,
                    ));
                }
                Err(Error::FailedEntryFunction(e))
            },
        }
    }

    /// A store in which a module was instantiated keeps the addresses of
    /// the store before.
    pub proof fn lemma_instantiated_keeps_addresses(
        &self,
        old: &Store<C>,
        module: Module,
        index: ModuleIndex,
        name: Option<String>,
        plan: Plan,
        globals: Seq<GlobalInstance>,
    )
        requires
            self.instantiated(old, module, index, name, plan, globals),
        ensures
            self.keeps_addresses(old),
    {
        assert forall|m: u32| #[trigger] old.funcs().locals.contains_key(m) implies
            self.funcs().locals.contains_key(m)
            && self.funcs().locals[m] == old.funcs().locals[m] by {
            assert(self.funcs().locals.remove(index.0).contains_key(m));
        }
        assert forall|m: u32| #[trigger] old.tables().locals.contains_key(m) implies
            self.tables().locals.contains_key(m)
            && self.tables().locals[m] == old.tables().locals[m] by {
            assert(self.tables().locals.remove(index.0).contains_key(m));
        }
        assert forall|m: u32| #[trigger] old.mems().locals.contains_key(m) implies
            self.mems().locals.contains_key(m) && self.mems().locals[m] == old.mems().locals[m] by {
            assert(self.mems().locals.remove(index.0).contains_key(m));
        }
        assert forall|m: u32| #[trigger] old.globals().locals.contains_key(m) implies
            self.globals().locals.contains_key(m)
            && self.globals().locals[m] == old.globals().locals[m] by {
            assert(self.globals().locals.remove(index.0).contains_key(m));
        }
    }

    /// An import is no copy: a local address of a module that names an
    /// import resolves to an item that the store held before the module
    /// was instantiated, which another module or the host added.
    pub proof fn lemma_import_resolves_to_earlier_item(
        &self,
        old: &Store<C>,
        module: Module,
        index: ModuleIndex,
        name: Option<String>,
        plan: Plan,
        globals: Seq<GlobalInstance>,
        kind: ExportKind,
        slot: usize,
    )
        requires
            old.handles_valid(),
            old.plan(module, index) == Ok::<Plan, ErrorView>(plan),
            self.instantiated(old, module, index, name, plan, globals),
            slot < match kind {
                ExportKind::Function => plan.slots.funcs.len(),
                ExportKind::Table => plan.slots.tables.len(),
                ExportKind::Memory => plan.slots.mems.len(),
                ExportKind::Global => plan.slots.globals.len(),
            },
        ensures
            self.resolved(kind, index, slot) matches Some(handle) && handle < match kind {
                ExportKind::Function => old.funcs().items.len(),
                ExportKind::Table => old.tables().items.len(),
                ExportKind::Memory => old.mems().items.len(),
                ExportKind::Global => old.globals().items.len(),
            },
    {
        old.lemma_imported_slots_hold(module.imports@, module.types@);
        let slots = old.imported(module.imports@, module.types@)->Ok_0;
        assert(plan.slots == slots);
        match kind {
            ExportKind::Function => {
                assert(self.funcs().slots(index)[slot as int] == slots.funcs[slot as int]);
            },
            ExportKind::Table => {
                assert(self.tables().slots(index)[slot as int] == slots.tables[slot as int]);
            },
            ExportKind::Memory => {
                assert(self.mems().slots(index)[slot as int] == slots.mems[slot as int]);
            },
            ExportKind::Global => {
                assert(self.globals().slots(index)[slot as int] == slots.globals[slot as int]);
            },
        }
    }
}

} // verus!
