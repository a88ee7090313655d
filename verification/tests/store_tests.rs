use wasminspect::address::{
    ExecutableFuncAddr, FuncAddr, GlobalAddr, MemoryAddr, ModuleIndex, TableAddr,
};
use wasminspect::context::EmbedContexts;
use wasminspect::executor::ExecError;
use wasminspect::func::{FuncType, HostFunction};
use wasminspect::global::{GlobalInstance, GlobalType};
use wasminspect::inst::{InitExpr, Instruction};
use wasminspect::memory::{Error as MemoryError, MemoryInstance, PAGE_SIZE};
use wasminspect::module::{
    DataSegment, DefinedModuleError, ElementSegment, ExportKind, External, FuncBody, GlobalEntry,
    HostExport, HostModuleError, ImportEntry, Internal, Module, ModuleInstance, ResizableLimits,
};
use wasminspect::names::Named;
use wasminspect::store::{check_limits, Error, GlobalError, HostValue, Store};
use wasminspect::table::{Error as TableError, TableInstance};
use wasminspect::value::{Value, ValueType};

struct Silent;

impl HostFunction<()> for Silent {
    fn call(&self, _: &Vec<Value>, _: &EmbedContexts<()>) -> Result<Vec<Value>, String> {
        Ok(vec![])
    }
}

fn host_store() -> Store<()> {
    let mut store: Store<()> = Store::new();
    store.load_host_module(
        "env".to_string(),
        vec![
            Named::new(
                "log".to_string(),
                HostValue::Func(FuncType::new(vec![ValueType::I32], None), Box::new(Silent)),
            ),
            Named::new(
                "limit".to_string(),
                HostValue::Global(GlobalInstance::new(
                    Value::I32(7),
                    GlobalType::new(ValueType::I32, false),
                )),
            ),
            Named::new(
                "counter".to_string(),
                HostValue::Global(GlobalInstance::new(
                    Value::I64(0),
                    GlobalType::new(ValueType::I64, true),
                )),
            ),
            Named::new("table".to_string(), HostValue::Table(TableInstance::new(4, Some(8)))),
            Named::new("memory".to_string(), HostValue::Mem(MemoryInstance::new(1, Some(2)))),
        ],
    );
    store
}

fn import(field: &str, external: External) -> ImportEntry {
    ImportEntry { module: "env".to_string(), field: field.to_string(), external }
}

fn const_expr(v: i32) -> InitExpr {
    InitExpr::new(vec![Instruction::I32Const(v), Instruction::End])
}

fn shape(store: &Store<()>) -> (usize, usize, usize, usize, usize, usize) {
    (
        store.func_count(),
        store.table_count(),
        store.mem_count(),
        store.global_count(),
        store.module_count(),
        store.name_count(),
    )
}

#[test]
fn new_store_is_empty() {
    let store: Store<()> = Store::new();
    assert_eq!(shape(&store), (0, 0, 0, 0, 0, 0));
    assert!(store.module(ModuleIndex(0)).is_none());
    assert!(store.func(FuncAddr(ModuleIndex(0), 0)).is_none());
    assert!(store.func_global(ExecutableFuncAddr(0)).is_none());
}

#[test]
fn host_module_gets_handles_in_order() {
    let store = host_store();
    assert_eq!(shape(&store), (1, 1, 1, 2, 1, 1));
    let host = match store.module_by_name(&"env".to_string()) {
        Some(ModuleInstance::Host(host)) => host,
        _ => panic!("env is a host module"),
    };
    assert_eq!(host.func_by_name(&"log".to_string()), Ok(Some(ExecutableFuncAddr(0))));
    assert_eq!(
        host.values.iter().map(|n| n.value).collect::<Vec<HostExport>>().len(),
        5
    );
    assert_eq!(host.values[1].value.clone(), host.values[1].value);
    assert!(matches!(host.values[1].value, HostExport::Global(a) if a.0 == 0));
    assert!(matches!(host.values[2].value, HostExport::Global(a) if a.0 == 1));
    assert!(matches!(host.values[3].value, HostExport::Table(a) if a.0 == 0));
    assert!(matches!(host.values[4].value, HostExport::Mem(a) if a.0 == 0));
    assert_eq!(
        host.table_by_name(&"log".to_string()),
        Err(HostModuleError::TypeMismatch(
            ExportKind::Table,
            HostExport::Func(ExecutableFuncAddr(0))
        ))
    );
    assert_eq!(host.global_by_name(&"nothing".to_string()), Ok(None));
    let func = store.func_global(ExecutableFuncAddr(0)).unwrap();
    assert_eq!(func.host().unwrap().field_name(), "log");
    assert_eq!(func.host().unwrap().module_name(), "env");
    assert_eq!(func.ty(), &FuncType::new(vec![ValueType::I32], None));
    // A host module has no local slots.
    assert_eq!(store.memory_count(ModuleIndex(0)), 0);
    assert!(store.func(FuncAddr(ModuleIndex(0), 0)).is_none());
}

#[test]
fn names_are_bound_to_the_latest_index() {
    let mut store = host_store();
    assert_eq!(store.module_index_by_name(&"env".to_string()), Some(ModuleIndex(0)));
    store.register_name("alias".to_string(), ModuleIndex(0));
    assert!(store.module_by_name(&"alias".to_string()).is_some());
    store.register_name("alias".to_string(), ModuleIndex(9));
    assert_eq!(store.module_index_by_name(&"alias".to_string()), Some(ModuleIndex(9)));
    assert!(store.module_by_name(&"alias".to_string()).is_none());
    assert!(store.module_by_name(&"other".to_string()).is_none());
}

#[test]
fn embed_contexts_are_found_by_tag() {
    let mut store: Store<String> = Store::new();
    assert_eq!(store.get_embed_context(1), None);
    store.add_embed_context(1, "first".to_string());
    store.add_embed_context(2, "second".to_string());
    assert_eq!(store.get_embed_context(1), Some(&"first".to_string()));
    assert_eq!(store.get_embed_context(2), Some(&"second".to_string()));
    store.add_embed_context(1, "third".to_string());
    assert_eq!(store.get_embed_context(1), Some(&"third".to_string()));
    assert_eq!(store.get_embed_context(3), None);
}

#[test]
fn limits_of_an_import_are_checked() {
    let ask = |initial, maximum| ResizableLimits { initial, maximum };
    assert!(check_limits(2, None, ask(2, None)));
    assert!(check_limits(3, Some(4), ask(2, Some(4))));
    assert!(check_limits(3, Some(3), ask(2, Some(4))));
    assert!(!check_limits(1, None, ask(2, None)));
    assert!(!check_limits(2, None, ask(2, Some(4))));
    assert!(!check_limits(2, Some(5), ask(2, Some(4))));
    assert!(check_limits(2, Some(5), ask(2, None)));
}

#[test]
fn module_with_imports_sees_them_before_its_own() {
    let mut store = host_store();
    let mut module = Module::new();
    module.types.push(FuncType::new(vec![ValueType::I32], None));
    module.types.push(FuncType::new(vec![], Some(ValueType::I32)));
    module.imports.push(import("log", External::Function(0)));
    module.imports.push(import(
        "memory",
        External::Memory(ResizableLimits { initial: 1, maximum: Some(2) }),
    ));
    module.imports.push(import(
        "table",
        External::Table(ResizableLimits { initial: 2, maximum: None }),
    ));
    module.imports.push(import(
        "limit",
        External::Global(GlobalType::new(ValueType::I32, false)),
    ));
    module.functions.push(1);
    module.codes.push(FuncBody {
        locals: vec![ValueType::I64],
        code: vec![Instruction::I32Const(1), Instruction::End],
    });
    module.globals.push(GlobalEntry {
        global_type: GlobalType::new(ValueType::I32, true),
        init_expr: InitExpr::new(vec![Instruction::GetGlobal(0), Instruction::End]),
    });
    module.tables.push(ResizableLimits { initial: 3, maximum: Some(3) });
    module.memories.push(ResizableLimits { initial: 1, maximum: None });
    module.exports.push(Named::new("answer".to_string(), Internal::Global(1)));
    module.exports.push(Named::new("run".to_string(), Internal::Function(1)));
    module.elements.push(ElementSegment { index: 0, offset: const_expr(1), members: vec![1, 0] });
    module.elements.push(ElementSegment { index: 1, offset: const_expr(0), members: vec![1] });
    module.data.push(DataSegment { index: 1, offset: const_expr(3), value: vec![9, 8] });
    module.data.push(DataSegment { index: 0, offset: const_expr(0), value: vec![1] });
    module.data.push(DataSegment { index: 7, offset: const_expr(-1), value: vec![1] });

    let index = ModuleIndex(1);
    assert_eq!(store.load_parity_module(Some("user".to_string()), module, 10), Ok(index));
    assert_eq!(shape(&store), (2, 2, 2, 3, 2, 2));

    // Functions: the import first, then the defined one.
    let (imported, handle) = store.func(FuncAddr(index, 0)).unwrap();
    assert_eq!(handle, ExecutableFuncAddr(0));
    assert!(imported.host().is_some());
    let (defined, handle) = store.func(FuncAddr(index, 1)).unwrap();
    assert_eq!(handle, ExecutableFuncAddr(1));
    let defined = defined.defined().unwrap();
    assert_eq!(defined.name(), "<module defined func #1>");
    assert_eq!(defined.ty(), &FuncType::new(vec![], Some(ValueType::I32)));
    assert_eq!(defined.module_index(), index);
    assert_eq!(defined.code(), &vec![Instruction::I32Const(1), Instruction::End]);
    assert_eq!(defined.locals, vec![ValueType::I64]);
    assert!(store.func(FuncAddr(index, 2)).is_none());

    // Globals: the own one holds the value of the imported one.
    assert_eq!(store.global(GlobalAddr(index, 0)).unwrap().value(), Value::I32(7));
    let own = store.global(GlobalAddr(index, 1)).unwrap();
    assert_eq!(own.value(), Value::I32(7));
    assert!(own.is_mutable());
    assert_eq!(
        store.scan_global_by_name(index, &"answer".to_string()).map(|g| g.value()),
        Some(Value::I32(7))
    );
    assert!(store.scan_global_by_name(index, &"run".to_string()).is_none());
    assert!(store.scan_global_by_name(ModuleIndex(0), &"limit".to_string()).is_none());

    // Tables: the element segments went into the imported and the own one.
    let imported = store.table(TableAddr(index, 0)).unwrap();
    assert_eq!(imported.buffer_len(), 4);
    assert_eq!(imported.get_at(0), None);
    assert_eq!(imported.get_at(1), Some(FuncAddr(index, 1)));
    assert_eq!(imported.get_at(2), Some(FuncAddr(index, 0)));
    assert_eq!(imported.get_at(3), None);
    let own = store.table(TableAddr(index, 1)).unwrap();
    assert_eq!(own.buffer_len(), 3);
    assert_eq!(own.max(), Some(3));
    assert_eq!(own.get_at(0), Some(FuncAddr(index, 1)));
    assert_eq!(own.get_at(1), None);

    // Memories: the data segments went into the imported and the own one.
    assert_eq!(store.memory_count(index), 2);
    let imported = store.memory(MemoryAddr(index, 0)).unwrap();
    assert_eq!(imported.raw_data()[0..2].to_vec(), vec![1u8, 0]);
    let own = store.memory(MemoryAddr(index, 1)).unwrap();
    assert_eq!(own.data_len(), PAGE_SIZE);
    assert_eq!(own.raw_data()[2..6].to_vec(), vec![0u8, 9, 8, 0]);

    // The module and its name.
    let instance = match store.module_by_name(&"user".to_string()) {
        Some(ModuleInstance::Defined(instance)) => instance,
        _ => panic!("user is a defined module"),
    };
    assert_eq!(instance.module_index, index);
    assert_eq!(instance.exported_func(&"run".to_string()), Ok(Some(FuncAddr(index, 1))));
    assert_eq!(
        instance.exported_func(&"answer".to_string()),
        Err(DefinedModuleError::TypeMismatch(ExportKind::Function, Internal::Global(1)))
    );
    assert_eq!(instance.exported_memory(&"none".to_string()), Ok(None));
    assert_eq!(instance.start_func, None);
}

#[test]
fn a_module_can_import_from_a_module() {
    let mut store = host_store();
    let mut first = Module::new();
    first.types.push(FuncType::new(vec![], Some(ValueType::I32)));
    first.functions.push(0);
    first.codes.push(FuncBody {
        locals: vec![],
        code: vec![Instruction::I32Const(5), Instruction::End],
    });
    first.exports.push(Named::new("five".to_string(), Internal::Function(0)));
    assert_eq!(
        store.load_parity_module(Some("first".to_string()), first, 10),
        Ok(ModuleIndex(1))
    );
    let mut second = Module::new();
    second.types.push(FuncType::new(vec![], Some(ValueType::I32)));
    second.imports.push(ImportEntry {
        module: "first".to_string(),
        field: "five".to_string(),
        external: External::Function(0),
    });
    assert_eq!(store.load_parity_module(None, second, 10), Ok(ModuleIndex(2)));
    let (_, through_import) = store.func(FuncAddr(ModuleIndex(2), 0)).unwrap();
    let (_, direct) = store.func(FuncAddr(ModuleIndex(1), 0)).unwrap();
    assert_eq!(through_import, direct);
    assert_eq!(store.func_count(), 2);
}

#[test]
fn addresses_stay_as_they_are_over_later_loads() {
    let mut store = host_store();
    let mut first = Module::new();
    first.types.push(FuncType::new(vec![], None));
    first.functions.push(0);
    first.codes.push(FuncBody { locals: vec![], code: vec![Instruction::End] });
    first.memories.push(ResizableLimits { initial: 1, maximum: None });
    assert_eq!(store.load_parity_module(None, first, 10), Ok(ModuleIndex(1)));
    let (_, func_before) = store.func(FuncAddr(ModuleIndex(1), 0)).unwrap();
    let name_before = store
        .func(FuncAddr(ModuleIndex(1), 0))
        .unwrap()
        .0
        .defined()
        .unwrap()
        .name()
        .clone();
    for round in 0..3 {
        let mut next = Module::new();
        next.types.push(FuncType::new(vec![], None));
        next.functions.push(0);
        next.codes.push(FuncBody { locals: vec![], code: vec![Instruction::Nop, Instruction::End] });
        next.memories.push(ResizableLimits { initial: 1, maximum: None });
        // Every other load fails and is taken back.
        if round == 1 {
            next.functions.push(5);
            next.codes.push(FuncBody { locals: vec![], code: vec![Instruction::End] });
            assert_eq!(store.load_parity_module(None, next, 10), Err(Error::UnknownType(5)));
        } else {
            assert!(store.load_parity_module(None, next, 10).is_ok());
        }
        let (func, handle) = store.func(FuncAddr(ModuleIndex(1), 0)).unwrap();
        assert_eq!(handle, func_before);
        assert_eq!(func.defined().unwrap().name(), &name_before);
        assert_eq!(store.memory_count(ModuleIndex(1)), 1);
    }
    assert_eq!(store.module_count(), 4);
    assert_eq!(store.func_count(), 4);
}

fn failing(module: Module) -> Error {
    let mut store = host_store();
    let before = shape(&store);
    let env_memory = store.memory(MemoryAddr(ModuleIndex(9), 0)).is_none();
    let result = store.load_parity_module(Some("failing".to_string()), module, 100);
    assert_eq!(shape(&store), before);
    assert!(env_memory);
    assert!(store.module_by_name(&"failing".to_string()).is_none());
    for kind in 0..4 {
        let sees = match kind {
            0 => store.func(FuncAddr(ModuleIndex(1), 0)).is_some(),
            1 => store.table(TableAddr(ModuleIndex(1), 0)).is_some(),
            2 => store.memory(MemoryAddr(ModuleIndex(1), 0)).is_some(),
            _ => store.global(GlobalAddr(ModuleIndex(1), 0)).is_some(),
        };
        assert!(!sees);
    }
    result.unwrap_err()
}

#[test]
fn unknown_type_of_an_imported_function() {
    let mut module = Module::new();
    module.imports.push(import("log", External::Function(3)));
    assert_eq!(failing(module), Error::UnknownType(3));
}

#[test]
fn unknown_type_of_a_defined_function() {
    let mut module = Module::new();
    module.types.push(FuncType::new(vec![], None));
    module.functions.push(0);
    module.functions.push(1);
    module.codes.push(FuncBody { locals: vec![], code: vec![Instruction::End] });
    module.codes.push(FuncBody { locals: vec![], code: vec![Instruction::End] });
    assert_eq!(failing(module), Error::UnknownType(1));
}

#[test]
fn a_function_without_a_body_is_not_defined() {
    let mut store = host_store();
    let mut module = Module::new();
    module.types.push(FuncType::new(vec![], None));
    module.functions.push(0);
    module.functions.push(9);
    module.codes.push(FuncBody { locals: vec![], code: vec![Instruction::End] });
    assert_eq!(store.load_parity_module(None, module, 10), Ok(ModuleIndex(1)));
    assert_eq!(store.func_count(), 2);
}

#[test]
fn imports_that_name_nothing() {
    let limits = ResizableLimits { initial: 0, maximum: None };
    let mut module = Module::new();
    module.types.push(FuncType::new(vec![], None));
    module.imports.push(import("missing", External::Function(0)));
    assert_eq!(
        failing(module),
        Error::UndefinedFunction("env".to_string(), "missing".to_string())
    );
    let mut module = Module::new();
    module.imports.push(import("missing", External::Memory(limits)));
    assert_eq!(failing(module), Error::UndefinedMemory("env".to_string(), "missing".to_string()));
    let mut module = Module::new();
    module.imports.push(import("missing", External::Table(limits)));
    assert_eq!(failing(module), Error::UndefinedTable("env".to_string(), "missing".to_string()));
    let mut module = Module::new();
    module.imports.push(import(
        "missing",
        External::Global(GlobalType::new(ValueType::I32, false)),
    ));
    assert_eq!(failing(module), Error::UndefinedGlobal("env".to_string(), "missing".to_string()));
}

#[test]
fn import_from_a_module_that_is_not_registered() {
    let mut module = Module::new();
    module.types.push(FuncType::new(vec![], None));
    module.imports.push(ImportEntry {
        module: "nowhere".to_string(),
        field: "f".to_string(),
        external: External::Function(0),
    });
    assert_eq!(
        failing(module),
        Error::UndefinedFunction("nowhere".to_string(), "f".to_string())
    );
}

#[test]
fn import_of_another_kind_from_a_host_module() {
    let mut module = Module::new();
    module.imports.push(import(
        "log",
        External::Memory(ResizableLimits { initial: 0, maximum: None }),
    ));
    assert_eq!(
        failing(module),
        Error::InvalidHostImport(HostModuleError::TypeMismatch(
            ExportKind::Memory,
            HostExport::Func(ExecutableFuncAddr(0))
        ))
    );
}

#[test]
fn import_of_another_kind_from_a_defined_module() {
    let mut store = host_store();
    let mut first = Module::new();
    first.memories.push(ResizableLimits { initial: 1, maximum: None });
    first.exports.push(Named::new("mem".to_string(), Internal::Memory(0)));
    first.exports.push(Named::new("gone".to_string(), Internal::Memory(4)));
    assert_eq!(
        store.load_parity_module(Some("first".to_string()), first, 10),
        Ok(ModuleIndex(1))
    );
    let from_first = |field: &str, external| ImportEntry {
        module: "first".to_string(),
        field: field.to_string(),
        external,
    };
    let mut second = Module::new();
    second.types.push(FuncType::new(vec![], None));
    second.imports.push(from_first("mem", External::Function(0)));
    assert_eq!(
        store.load_parity_module(None, second, 10),
        Err(Error::InvalidImport(DefinedModuleError::TypeMismatch(
            ExportKind::Function,
            Internal::Memory(0)
        )))
    );
    // An export that names what the module does not have names nothing.
    let mut third = Module::new();
    third.imports.push(from_first(
        "gone",
        External::Memory(ResizableLimits { initial: 0, maximum: None }),
    ));
    assert_eq!(
        store.load_parity_module(None, third, 10),
        Err(Error::UndefinedMemory("first".to_string(), "gone".to_string()))
    );
    assert_eq!(store.module_count(), 2);
}

#[test]
fn an_imported_function_of_another_signature_is_refused() {
    let mut module = Module::new();
    module.types.push(FuncType::new(vec![ValueType::I64], None));
    module.imports.push(import("log", External::Function(0)));
    assert_eq!(
        failing(module),
        Error::IncompatibleImportFuncType(
            "log".to_string(),
            FuncType::new(vec![ValueType::I64], None),
            FuncType::new(vec![ValueType::I32], None)
        )
    );
    let mut module = Module::new();
    module.types.push(FuncType::new(vec![ValueType::I32], Some(ValueType::I32)));
    module.imports.push(import("log", External::Function(0)));
    assert!(matches!(failing(module), Error::IncompatibleImportFuncType(..)));
    let mut module = Module::new();
    module.types.push(FuncType::new(vec![ValueType::I32, ValueType::I32], None));
    module.imports.push(import("log", External::Function(0)));
    assert!(matches!(failing(module), Error::IncompatibleImportFuncType(..)));
}

#[test]
fn an_imported_global_must_agree_in_mutability_and_type() {
    let mut module = Module::new();
    module.imports.push(import(
        "limit",
        External::Global(GlobalType::new(ValueType::I32, true)),
    ));
    assert_eq!(failing(module), Error::IncompatibleImportGlobalMutability);
    let mut module = Module::new();
    module.imports.push(import(
        "limit",
        External::Global(GlobalType::new(ValueType::F64, false)),
    ));
    assert_eq!(
        failing(module),
        Error::IncompatibleImportGlobalType(ValueType::F64, ValueType::I32)
    );
    // Mutability is held against the declaration before the type is.
    let mut module = Module::new();
    module.imports.push(import(
        "limit",
        External::Global(GlobalType::new(ValueType::F64, true)),
    ));
    assert_eq!(failing(module), Error::IncompatibleImportGlobalMutability);
}

#[test]
fn an_imported_table_must_fit_the_declared_limits() {
    let ask = |initial, maximum| {
        let mut module = Module::new();
        module.imports.push(import(
            "table",
            External::Table(ResizableLimits { initial, maximum }),
        ));
        module
    };
    assert_eq!(failing(ask(5, None)), Error::IncompatibleImportTableType);
    assert_eq!(failing(ask(4, Some(7))), Error::IncompatibleImportTableType);
    let mut store = host_store();
    assert!(store.load_parity_module(None, ask(4, Some(8)), 10).is_ok());
    assert!(store.load_parity_module(None, ask(0, None), 10).is_ok());
}

#[test]
fn an_imported_memory_must_fit_the_declared_limits() {
    let ask = |initial, maximum| {
        let mut module = Module::new();
        module.imports.push(import(
            "memory",
            External::Memory(ResizableLimits { initial, maximum }),
        ));
        module
    };
    assert_eq!(failing(ask(2, Some(4))), Error::IncompatibleImportMemoryType);
    assert_eq!(failing(ask(1, Some(1))), Error::IncompatibleImportMemoryType);
    let mut store = host_store();
    assert!(store.load_parity_module(None, ask(1, Some(2)), 10).is_ok());
}

#[test]
fn the_first_failing_import_decides() {
    let mut module = Module::new();
    module.types.push(FuncType::new(vec![ValueType::I32], None));
    module.imports.push(import("log", External::Function(0)));
    module.imports.push(import(
        "memory",
        External::Memory(ResizableLimits { initial: 9, maximum: None }),
    ));
    module.imports.push(import("log", External::Function(8)));
    assert_eq!(failing(module), Error::IncompatibleImportMemoryType);
}

#[test]
fn an_element_segment_that_overruns_its_table_is_refused() {
    let mut module = Module::new();
    module.types.push(FuncType::new(vec![], None));
    module.functions.push(0);
    module.codes.push(FuncBody { locals: vec![], code: vec![Instruction::End] });
    module.imports.push(import(
        "table",
        External::Table(ResizableLimits { initial: 0, maximum: None }),
    ));
    module.tables.push(ResizableLimits { initial: 2, maximum: None });
    module.elements.push(ElementSegment { index: 0, offset: const_expr(0), members: vec![0] });
    module.elements.push(ElementSegment { index: 1, offset: const_expr(1), members: vec![0, 0] });
    let mut store = host_store();
    assert_eq!(
        store.load_parity_module(None, module, 10),
        Err(Error::InvalidElementSegments(TableError::OutOfBounds))
    );
    // The segment that fitted was not written into the imported table.
    assert_eq!(shape(&store), (1, 1, 1, 2, 1, 1));
    let mut probe = Module::new();
    probe.imports.push(import(
        "table",
        External::Table(ResizableLimits { initial: 0, maximum: None }),
    ));
    assert_eq!(store.load_parity_module(None, probe, 10), Ok(ModuleIndex(1)));
    assert_eq!(store.table(TableAddr(ModuleIndex(1), 0)).unwrap().get_at(0), None);
}

#[test]
fn a_segment_at_a_negative_offset_lies_beyond_two_gib() {
    let mut module = Module::new();
    module.memories.push(ResizableLimits { initial: 1, maximum: None });
    module.data.push(DataSegment { index: 0, offset: const_expr(-1), value: vec![] });
    assert_eq!(failing(module), Error::InvalidDataSegments(MemoryError::OutOfBounds));
}

#[test]
fn a_data_segment_may_end_with_the_memory() {
    let mut store = host_store();
    let mut module = Module::new();
    module.memories.push(ResizableLimits { initial: 1, maximum: None });
    module.data.push(DataSegment {
        index: 0,
        offset: const_expr((PAGE_SIZE - 2) as i32),
        value: vec![5, 6],
    });
    assert_eq!(store.load_parity_module(None, module, 10), Ok(ModuleIndex(1)));
    let memory = store.memory(MemoryAddr(ModuleIndex(1), 0)).unwrap();
    assert_eq!(memory.raw_data()[PAGE_SIZE - 3..].to_vec(), vec![0u8, 5, 6]);
}

#[test]
fn no_data_is_written_where_a_later_segment_fails() {
    let mut store = host_store();
    let mut module = Module::new();
    module.imports.push(import(
        "memory",
        External::Memory(ResizableLimits { initial: 1, maximum: None }),
    ));
    module.data.push(DataSegment { index: 0, offset: const_expr(0), value: vec![1, 2, 3] });
    module.data.push(DataSegment {
        index: 0,
        offset: const_expr(PAGE_SIZE as i32),
        value: vec![1],
    });
    assert_eq!(
        store.load_parity_module(None, module, 10),
        Err(Error::InvalidDataSegments(MemoryError::OutOfBounds))
    );
    let mut probe = Module::new();
    probe.imports.push(import(
        "memory",
        External::Memory(ResizableLimits { initial: 1, maximum: None }),
    ));
    assert_eq!(store.load_parity_module(None, probe, 10), Ok(ModuleIndex(1)));
    let memory = store.memory(MemoryAddr(ModuleIndex(1), 0)).unwrap();
    assert_eq!(memory.raw_data()[0..3].to_vec(), vec![0u8, 0, 0]);
}

#[test]
fn unsupported_constant_expressions() {
    let global = |code| {
        let mut module = Module::new();
        module.imports.push(import(
            "limit",
            External::Global(GlobalType::new(ValueType::I32, false)),
        ));
        module.imports.push(import(
            "counter",
            External::Global(GlobalType::new(ValueType::I64, true)),
        ));
        module.globals.push(GlobalEntry {
            global_type: GlobalType::new(ValueType::I32, false),
            init_expr: InitExpr::new(vec![Instruction::I32Const(1), Instruction::End]),
        });
        module.globals.push(GlobalEntry {
            global_type: GlobalType::new(ValueType::I32, false),
            init_expr: InitExpr::new(code),
        });
        module
    };
    assert_eq!(failing(global(vec![])), Error::UnsupportedInitExpr);
    assert_eq!(failing(global(vec![Instruction::Nop])), Error::UnsupportedInitExpr);
    assert_eq!(failing(global(vec![Instruction::I32Add])), Error::UnsupportedInitExpr);
    // A mutable imported global, a global of the module itself, a global
    // that is not there.
    assert_eq!(failing(global(vec![Instruction::GetGlobal(1)])), Error::UnsupportedInitExpr);
    assert_eq!(failing(global(vec![Instruction::GetGlobal(2)])), Error::UnsupportedInitExpr);
    assert_eq!(failing(global(vec![Instruction::GetGlobal(9)])), Error::UnsupportedInitExpr);
    let mut store = host_store();
    assert_eq!(
        store.load_parity_module(None, global(vec![Instruction::GetGlobal(0)]), 10),
        Ok(ModuleIndex(1))
    );
    assert_eq!(store.global(GlobalAddr(ModuleIndex(1), 3)).unwrap().value(), Value::I32(7));
    let mut store = host_store();
    assert_eq!(
        store.load_parity_module(None, global(vec![Instruction::F64Const(17)]), 10),
        Ok(ModuleIndex(1))
    );
    assert_eq!(store.global(GlobalAddr(ModuleIndex(1), 3)).unwrap().value(), Value::F64(17));
}

#[test]
fn an_offset_must_be_a_32_bit_integer() {
    let mut module = Module::new();
    module.memories.push(ResizableLimits { initial: 1, maximum: None });
    module.data.push(DataSegment {
        index: 0,
        offset: InitExpr::new(vec![Instruction::I64Const(0)]),
        value: vec![1],
    });
    assert_eq!(failing(module), Error::UnsupportedInitExpr);
}

#[test]
fn a_start_function_that_traps_takes_the_module_back() {
    let mut module = Module::new();
    module.types.push(FuncType::new(vec![], None));
    module.functions.push(0);
    module.codes.push(FuncBody {
        locals: vec![],
        code: vec![Instruction::Unreachable, Instruction::End],
    });
    module.memories.push(ResizableLimits { initial: 1, maximum: None });
    module.start = Some(0);
    assert_eq!(failing(module), Error::FailedEntryFunction(ExecError::Unreachable));
}

#[test]
fn a_start_function_that_does_not_end_is_given_up() {
    let mut module = Module::new();
    module.types.push(FuncType::new(vec![], None));
    module.functions.push(0);
    module.codes.push(FuncBody {
        locals: vec![],
        code: vec![
            Instruction::Loop(wasminspect::inst::BlockType::NoResult),
            Instruction::Br(0),
            Instruction::End,
            Instruction::End,
        ],
    });
    module.start = Some(0);
    assert_eq!(failing(module), Error::FailedEntryFunction(ExecError::StepLimitExceeded));
}

#[test]
fn a_start_function_that_is_not_there_fails() {
    let mut module = Module::new();
    module.start = Some(3);
    assert_eq!(failing(module), Error::FailedEntryFunction(ExecError::InvariantViolation));
}

#[test]
fn a_failed_start_function_leaves_its_writes_to_imported_globals() {
    let mut store = host_store();
    let mut module = Module::new();
    module.types.push(FuncType::new(vec![], None));
    module.imports.push(import(
        "counter",
        External::Global(GlobalType::new(ValueType::I64, true)),
    ));
    module.functions.push(0);
    module.codes.push(FuncBody {
        locals: vec![],
        code: vec![
            Instruction::I64Const(5),
            Instruction::SetGlobal(0),
            Instruction::Unreachable,
            Instruction::End,
        ],
    });
    module.globals.push(GlobalEntry {
        global_type: GlobalType::new(ValueType::I32, true),
        init_expr: const_expr(1),
    });
    module.start = Some(0);
    let before = shape(&store);
    assert_eq!(
        store.load_parity_module(Some("m".to_string()), module, 100),
        Err(Error::FailedEntryFunction(ExecError::Unreachable))
    );
    assert_eq!(shape(&store), before);
    let mut probe = Module::new();
    probe.imports.push(import(
        "counter",
        External::Global(GlobalType::new(ValueType::I64, true)),
    ));
    assert_eq!(store.load_parity_module(None, probe, 10), Ok(ModuleIndex(1)));
    assert_eq!(store.global(GlobalAddr(ModuleIndex(1), 0)).unwrap().value(), Value::I64(5));
}

#[test]
fn a_failed_load_keeps_an_earlier_binding_of_the_name() {
    let mut store = host_store();
    let mut module = Module::new();
    module.types.push(FuncType::new(vec![], None));
    module.functions.push(0);
    module.codes.push(FuncBody { locals: vec![], code: vec![Instruction::Unreachable] });
    module.start = Some(0);
    assert!(store.load_parity_module(Some("env".to_string()), module, 10).is_err());
    assert_eq!(store.module_index_by_name(&"env".to_string()), Some(ModuleIndex(0)));
    assert!(matches!(
        store.module_by_name(&"env".to_string()),
        Some(ModuleInstance::Host(_))
    ));
}

#[test]
fn globals_are_written_through_the_store() {
    let mut store = host_store();
    let mut module = Module::new();
    module.imports.push(import(
        "limit",
        External::Global(GlobalType::new(ValueType::I32, false)),
    ));
    module.imports.push(import(
        "counter",
        External::Global(GlobalType::new(ValueType::I64, true)),
    ));
    assert_eq!(store.load_parity_module(None, module, 10), Ok(ModuleIndex(1)));
    let index = ModuleIndex(1);
    assert_eq!(store.set_global(GlobalAddr(index, 0), Value::I32(1)), Err(GlobalError::Immutable));
    assert_eq!(store.set_global(GlobalAddr(index, 2), Value::I32(1)), Err(GlobalError::Undefined));
    assert_eq!(store.set_global(GlobalAddr(index, 1), Value::I64(9)), Ok(()));
    assert_eq!(store.global(GlobalAddr(index, 0)).unwrap().value(), Value::I32(7));
    assert_eq!(store.global(GlobalAddr(index, 1)).unwrap().value(), Value::I64(9));
}

#[test]
fn errors_in_words() {
    assert_eq!(Error::UnknownType(12).message(), "Unknown type index used: 12");
    assert_eq!(
        Error::UndefinedFunction("env".to_string(), "f".to_string()).message(),
        "unknown import: Undefined function \"f\" in \"env\""
    );
    assert_eq!(
        Error::UndefinedGlobal("a".to_string(), "b".to_string()).message(),
        "unknown import: Undefined global \"b\" in \"a\""
    );
    assert_eq!(
        Error::IncompatibleImportFuncType(
            "f".to_string(),
            FuncType::new(vec![ValueType::I32, ValueType::F64], None),
            FuncType::new(vec![], Some(ValueType::I64))
        )
        .message(),
        "incompatible import type, \"f\" expected (I32, F64) -> () but got () -> I64"
    );
    assert_eq!(
        Error::IncompatibleImportGlobalType(ValueType::F32, ValueType::I32).message(),
        "incompatible import type, expected F32 but got I32"
    );
    assert_eq!(Error::IncompatibleImportMemoryType.message(), "incompatible import type");
    assert_eq!(
        Error::InvalidHostImport(HostModuleError::TypeMismatch(
            ExportKind::Memory,
            HostExport::Func(ExecutableFuncAddr(0))
        ))
        .message(),
        "invalid host import: expected memory but found function"
    );
    assert_eq!(
        Error::InvalidImport(DefinedModuleError::TypeMismatch(
            ExportKind::Table,
            Internal::Global(0)
        ))
        .message(),
        "invalid import: expected table but found global"
    );
    assert_eq!(
        Error::FailedEntryFunction(ExecError::UnsupportedInstruction("i64.add".to_string()))
            .message(),
        "i64.add not supported yet"
    );
    assert_eq!(
        Error::InvalidElementSegments(TableError::OutOfBounds).message(),
        "elements segment does not fit: OutOfBounds"
    );
}

#[test]
fn a_registered_name_serves_imports() {
    let mut store = host_store();
    let mut first = Module::new();
    first.globals.push(GlobalEntry {
        global_type: GlobalType::new(ValueType::I32, false),
        init_expr: const_expr(31),
    });
    first.exports.push(Named::new("g".to_string(), Internal::Global(0)));
    assert_eq!(store.load_parity_module(None, first, 10), Ok(ModuleIndex(1)));
    let asking = || {
        let mut module = Module::new();
        module.imports.push(ImportEntry {
            module: "lib".to_string(),
            field: "g".to_string(),
            external: External::Global(GlobalType::new(ValueType::I32, false)),
        });
        module
    };
    assert_eq!(
        store.load_parity_module(None, asking(), 10),
        Err(Error::UndefinedGlobal("lib".to_string(), "g".to_string()))
    );
    store.register_name("lib".to_string(), ModuleIndex(1));
    assert_eq!(store.load_parity_module(None, asking(), 10), Ok(ModuleIndex(2)));
    assert_eq!(store.global(GlobalAddr(ModuleIndex(2), 0)).unwrap().value(), Value::I32(31));
    assert_eq!(store.global_count(), 3);
}

#[test]
fn contexts_are_kept_by_tag() {
    let mut contexts: EmbedContexts<&str> = EmbedContexts::new();
    assert_eq!(contexts.get(0), None);
    contexts.add(0, "zero");
    contexts.add(u64::MAX, "most");
    contexts.add(0, "nought");
    assert_eq!(contexts.get(0), Some(&"nought"));
    assert_eq!(contexts.get(u64::MAX), Some(&"most"));
    assert_eq!(contexts.get(1), None);
    let mut store: Store<&str> = Store::new();
    store.add_embed_context(3, "three");
    assert_eq!(store.embed_contexts().get(3), Some(&"three"));
}
