use std::cell::RefCell;
use std::rc::Rc;
use wasminspect::address::{FuncAddr, MemoryAddr, ModuleIndex};
use wasminspect::context::EmbedContexts;
use wasminspect::executor::{ExecError, ExecSuccess, Executor};
use wasminspect::func::{FuncType, HostFunction};
use wasminspect::inst::{BlockType, InitExpr, Instruction};
use wasminspect::memory::{Error as MemoryError, MemoryInstance, PAGE_SIZE};
use wasminspect::module::{
    DataSegment, External, FuncBody, ImportEntry, Module, ResizableLimits,
};
use wasminspect::names::Named;
use wasminspect::stack::{InstIndex, ProgramCounter};
use wasminspect::store::{Error, HostValue, Store};
use wasminspect::value::{Value, ValueType};

struct Recorder {
    seen: Rc<RefCell<Vec<Vec<Value>>>>,
}

impl HostFunction<()> for Recorder {
    fn call(&self, args: &Vec<Value>, _: &EmbedContexts<()>) -> Result<Vec<Value>, String> {
        self.seen.borrow_mut().push(args.clone());
        Ok(vec![])
    }
}

fn run_to_end(executor: &mut Executor<()>, limit: usize) -> Result<usize, ExecError> {
    let mut steps = 0;
    while steps < limit {
        steps += 1;
        match executor.execute_step()? {
            ExecSuccess::Next => {}
            ExecSuccess::End => return Ok(steps),
        }
    }
    panic!("the run did not end within {} steps", limit);
}

fn single_function(ty: FuncType, locals: Vec<ValueType>, code: Vec<Instruction>) -> Module {
    let mut module = Module::new();
    module.types.push(ty);
    module.functions.push(0);
    module.codes.push(FuncBody { locals, code });
    module
}

#[test]
fn start_function_calls_the_imported_host_function() {
    let seen = Rc::new(RefCell::new(Vec::new()));
    let mut store: Store<()> = Store::new();
    store.load_host_module(
        "env".to_string(),
        vec![Named::new(
            "print_i32".to_string(),
            HostValue::Func(
                FuncType::new(vec![ValueType::I32], None),
                Box::new(Recorder { seen: seen.clone() }),
            ),
        )],
    );
    let mut module = Module::new();
    module.types.push(FuncType::new(vec![ValueType::I32], None));
    module.types.push(FuncType::new(vec![], None));
    module.imports.push(ImportEntry {
        module: "env".to_string(),
        field: "print_i32".to_string(),
        external: External::Function(0),
    });
    module.functions.push(1);
    module.codes.push(FuncBody {
        locals: vec![],
        code: vec![Instruction::I32Const(42), Instruction::Call(0), Instruction::End],
    });
    module.start = Some(1);
    let loaded = store.load_parity_module(None, module, 1000);
    assert_eq!(loaded, Ok(ModuleIndex(1)));
    assert_eq!(*seen.borrow(), vec![vec![Value::I32(42)]]);
    assert_eq!(store.module_count(), 2);
}

#[test]
fn adding_two_constants_gives_their_sum() {
    let mut store: Store<()> = Store::new();
    let module = single_function(
        FuncType::new(vec![], Some(ValueType::I32)),
        vec![],
        vec![
            Instruction::I32Const(1),
            Instruction::I32Const(2),
            Instruction::I32Add,
            Instruction::End,
        ],
    );
    assert_eq!(store.load_parity_module(None, module, 0), Ok(ModuleIndex(0)));
    let addr = FuncAddr(ModuleIndex(0), 0);
    let mut executor =
        Executor::new(0, addr, vec![], ProgramCounter::new(addr, InstIndex(0)), store);
    assert_eq!(run_to_end(&mut executor, 100), Ok(4));
    assert_eq!(executor.peek_result(), Ok(vec![Value::I32(3)]));
}

#[test]
fn a_loop_counts_up_to_ten() {
    let mut store: Store<()> = Store::new();
    let module = single_function(
        FuncType::new(vec![], Some(ValueType::I32)),
        vec![ValueType::I32],
        vec![
            Instruction::I32Const(0),
            Instruction::SetLocal(0),
            Instruction::Block(BlockType::NoResult),
            Instruction::Loop(BlockType::NoResult),
            Instruction::GetLocal(0),
            Instruction::I32Const(1),
            Instruction::I32Add,
            Instruction::SetLocal(0),
            Instruction::GetLocal(0),
            Instruction::I32Const(10),
            Instruction::I32LtS,
            Instruction::BrIf(0),
            Instruction::End,
            Instruction::End,
            Instruction::GetLocal(0),
            Instruction::End,
        ],
    );
    assert_eq!(store.load_parity_module(None, module, 0), Ok(ModuleIndex(0)));
    let addr = FuncAddr(ModuleIndex(0), 0);
    let mut executor =
        Executor::new(1, addr, vec![], ProgramCounter::new(addr, InstIndex(0)), store);
    assert!(run_to_end(&mut executor, 1000).is_ok());
    assert_eq!(executor.peek_result(), Ok(vec![Value::I32(10)]));
}

#[test]
fn an_imported_memory_that_is_too_small_is_refused() {
    let mut store: Store<()> = Store::new();
    store.load_host_module(
        "env".to_string(),
        vec![Named::new("memory".to_string(), HostValue::Mem(MemoryInstance::new(1, None)))],
    );
    let mut module = Module::new();
    module.imports.push(ImportEntry {
        module: "env".to_string(),
        field: "memory".to_string(),
        external: External::Memory(ResizableLimits { initial: 2, maximum: Some(4) }),
    });
    let loaded = store.load_parity_module(Some("user".to_string()), module, 10);
    assert_eq!(loaded, Err(Error::IncompatibleImportMemoryType));
    assert_eq!(store.module_count(), 1);
    assert_eq!(store.mem_count(), 1);
    assert_eq!(store.func_count(), 0);
    assert_eq!(store.table_count(), 0);
    assert_eq!(store.global_count(), 0);
    assert_eq!(store.name_count(), 1);
    assert_eq!(store.memory_count(ModuleIndex(1)), 0);
    assert!(store.module_by_name(&"user".to_string()).is_none());
    assert!(store.module_by_name(&"env".to_string()).is_some());
}

#[test]
fn a_data_segment_that_overruns_its_memory_is_refused() {
    let mut store: Store<()> = Store::new();
    let mut module = Module::new();
    module.memories.push(ResizableLimits { initial: 1, maximum: None });
    module.data.push(DataSegment {
        index: 0,
        offset: InitExpr::new(vec![
            Instruction::I32Const((PAGE_SIZE - 2) as i32),
            Instruction::End,
        ]),
        value: vec![1, 2, 3, 4],
    });
    let loaded = store.load_parity_module(None, module, 10);
    assert_eq!(loaded, Err(Error::InvalidDataSegments(MemoryError::OutOfBounds)));
    assert_eq!(store.mem_count(), 0);
    assert_eq!(store.memory_count(ModuleIndex(0)), 0);
    assert!(store.memory(MemoryAddr(ModuleIndex(0), 0)).is_none());
    assert_eq!(store.module_count(), 0);
}

#[test]
fn recursive_factorial_of_five() {
    let mut store: Store<()> = Store::new();
    let module = single_function(
        FuncType::new(vec![ValueType::I32], Some(ValueType::I32)),
        vec![],
        vec![
            Instruction::GetLocal(0),
            Instruction::I32Const(1),
            Instruction::I32LtS,
            Instruction::If(BlockType::Value(ValueType::I32)),
            Instruction::I32Const(1),
            Instruction::Else,
            Instruction::GetLocal(0),
            Instruction::GetLocal(0),
            Instruction::I32Const(1),
            Instruction::I32Sub,
            Instruction::Call(0),
            Instruction::I32Mul,
            Instruction::End,
            Instruction::End,
        ],
    );
    assert_eq!(store.load_parity_module(None, module, 0), Ok(ModuleIndex(0)));
    let addr = FuncAddr(ModuleIndex(0), 0);
    let mut executor = Executor::new(
        1,
        addr,
        vec![Value::I32(5)],
        ProgramCounter::new(addr, InstIndex(0)),
        store,
    );
    assert!(run_to_end(&mut executor, 10_000).is_ok());
    assert_eq!(executor.peek_result(), Ok(vec![Value::I32(120)]));
    assert_eq!(executor.stack().len(), 1);
    assert_eq!(executor.stack().values(), vec![Value::I32(120)]);
}
