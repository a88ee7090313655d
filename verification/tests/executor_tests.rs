use std::cell::RefCell;
use std::rc::Rc;
use wasminspect::address::{FuncAddr, GlobalAddr, ModuleIndex};
use wasminspect::context::EmbedContexts;
use wasminspect::executor::{
    branch, int_op, invoke_func, pop_as, settle_host_call, ExecError, ExecSuccess, Executor,
    IntOp, ReturnValError,
};
use wasminspect::stack::{Label, Stack};
use wasminspect::func::{FuncType, HostFunction};
use wasminspect::global::{GlobalInstance, GlobalType};
use wasminspect::inst::{BlockType, Instruction};
use wasminspect::module::{External, FuncBody, ImportEntry, Module};
use wasminspect::names::Named;
use wasminspect::stack::{InstIndex, ProgramCounter, StackValue};
use wasminspect::store::{HostValue, Store};
use wasminspect::value::{Value, ValueType};

struct Scripted {
    answer: Result<Vec<Value>, String>,
    seen: Rc<RefCell<Vec<Vec<Value>>>>,
}

impl HostFunction<()> for Scripted {
    fn call(&self, args: &Vec<Value>, _: &EmbedContexts<()>) -> Result<Vec<Value>, String> {
        self.seen.borrow_mut().push(args.clone());
        self.answer.clone()
    }
}

fn function(params: Vec<ValueType>, result: Option<ValueType>, code: Vec<Instruction>) -> Module {
    let mut module = Module::new();
    module.types.push(FuncType::new(params, result));
    module.functions.push(0);
    module.codes.push(FuncBody { locals: vec![ValueType::I32, ValueType::I64], code });
    module
}

fn executor_for(module: Module, args: Vec<Value>) -> Executor<()> {
    let mut store: Store<()> = Store::new();
    assert_eq!(store.load_parity_module(None, module, 0), Ok(ModuleIndex(0)));
    let addr = FuncAddr(ModuleIndex(0), 0);
    Executor::new(args.len() + 2, addr, args, ProgramCounter::new(addr, InstIndex(0)), store)
}

fn steps(executor: &mut Executor<()>, n: usize) {
    for _ in 0..n {
        assert_eq!(executor.execute_step(), Ok(ExecSuccess::Next));
    }
}

fn result_of(result: Option<ValueType>, code: Vec<Instruction>) -> Result<Vec<Value>, ExecError> {
    let mut store: Store<()> = Store::new();
    let module = function(vec![], result, code);
    assert_eq!(store.load_parity_module(None, module, 0), Ok(ModuleIndex(0)));
    invoke_func(FuncAddr(ModuleIndex(0), 0), vec![], &mut store, 10_000)
}

fn i32_result(code: Vec<Instruction>) -> i32 {
    match result_of(Some(ValueType::I32), code) {
        Ok(values) => match values[..] {
            [Value::I32(v)] => v,
            _ => panic!("one 32-bit integer is expected, not {:?}", values),
        },
        Err(e) => panic!("the run trapped: {:?}", e),
    }
}

fn binary(lhs: i32, op: Instruction, rhs: i32) -> i32 {
    i32_result(vec![Instruction::I32Const(lhs), Instruction::I32Const(rhs), op, Instruction::End])
}

#[test]
fn new_executor_holds_the_entry_frame() {
    let executor = executor_for(
        function(vec![ValueType::I32], None, vec![Instruction::End]),
        vec![Value::I32(4)],
    );
    assert_eq!(executor.stack().len(), 2);
    let frame = executor.stack().current_frame().unwrap();
    assert_eq!(frame.func_addr, FuncAddr(ModuleIndex(0), 0));
    assert_eq!(frame.locals, vec![Value::I32(4), Value::I32(0), Value::I32(0)]);
    assert_eq!(frame.ret_pc, None);
    assert_eq!(executor.pc(), ProgramCounter::new(FuncAddr(ModuleIndex(0), 0), InstIndex(0)));
    assert_eq!(executor.peek_result(), Err(ReturnValError::NoCallFrame));
    assert_eq!(executor.current_func_insts(), Some(&vec![Instruction::End]));
    assert!(!executor.stack().is_over_top_level());
}

#[test]
fn arithmetic_wraps_round() {
    assert_eq!(binary(1, Instruction::I32Add, 2), 3);
    assert_eq!(binary(i32::MAX, Instruction::I32Add, 1), i32::MIN);
    assert_eq!(binary(i32::MIN, Instruction::I32Add, -1), i32::MAX);
    assert_eq!(binary(5, Instruction::I32Sub, 7), -2);
    assert_eq!(binary(i32::MIN, Instruction::I32Sub, 1), i32::MAX);
    assert_eq!(binary(6, Instruction::I32Mul, -7), -42);
    assert_eq!(binary(65536, Instruction::I32Mul, 65536), 0);
    assert_eq!(binary(i32::MAX, Instruction::I32Mul, 2), -2);
    assert_eq!(binary(i32::MIN, Instruction::I32Mul, -1), i32::MIN);
}

#[test]
fn comparisons_give_one_or_zero() {
    assert_eq!(binary(1, Instruction::I32LtS, 2), 1);
    assert_eq!(binary(2, Instruction::I32LtS, 1), 0);
    assert_eq!(binary(2, Instruction::I32LtS, 2), 0);
    assert_eq!(binary(-1, Instruction::I32LtS, 0), 1);
    assert_eq!(binary(3, Instruction::I32Eq, 3), 1);
    assert_eq!(binary(3, Instruction::I32Eq, -3), 0);
}

#[test]
fn the_left_operand_lies_under_the_right_one() {
    assert_eq!(binary(10, Instruction::I32Sub, 3), 7);
    assert_eq!(binary(3, Instruction::I32Sub, 10), -7);
}

#[test]
fn constants_are_pushed() {
    let mut executor = executor_for(
        function(
            vec![],
            None,
            vec![
                Instruction::I32Const(-1),
                Instruction::I64Const(1 << 40),
                Instruction::F32Const(0x3f80_0000),
                Instruction::F64Const(0x4000_0000_0000_0000),
                Instruction::Nop,
                Instruction::End,
            ],
        ),
        vec![],
    );
    steps(&mut executor, 5);
    assert_eq!(
        executor.stack().values(),
        vec![
            Value::I32(-1),
            Value::I64(1 << 40),
            Value::F32(0x3f80_0000),
            Value::F64(0x4000_0000_0000_0000)
        ]
    );
    assert_eq!(executor.pc().inst_index(), InstIndex(5));
}

#[test]
fn locals_are_read_and_written() {
    let mut executor = executor_for(
        function(
            vec![ValueType::I32],
            None,
            vec![
                Instruction::GetLocal(0),
                Instruction::SetLocal(2),
                Instruction::GetLocal(2),
                Instruction::End,
            ],
        ),
        vec![Value::I32(8)],
    );
    steps(&mut executor, 3);
    assert_eq!(executor.stack().values(), vec![Value::I32(8)]);
    assert_eq!(executor.stack().local(2), Some(Value::I32(8)));
    assert_eq!(executor.stack().local(3), None);
}

#[test]
fn a_missing_local_traps_and_leaves_the_stack() {
    let mut executor = executor_for(
        function(
            vec![],
            None,
            vec![Instruction::I32Const(1), Instruction::SetLocal(5), Instruction::GetLocal(5)],
        ),
        vec![],
    );
    steps(&mut executor, 1);
    assert_eq!(executor.execute_step(), Err(ExecError::InvalidStackState));
    assert_eq!(executor.stack().values(), vec![Value::I32(1)]);
    assert_eq!(executor.pc().inst_index(), InstIndex(2));
    assert_eq!(executor.execute_step(), Err(ExecError::InvalidStackState));
    assert_eq!(executor.stack().len(), 3);
}

#[test]
fn traps_of_the_stack() {
    for code in [
        vec![Instruction::I32Add],
        vec![Instruction::I32Const(1), Instruction::I32Add],
        vec![Instruction::SetLocal(0)],
        vec![Instruction::SetGlobal(0)],
        vec![Instruction::If(BlockType::NoResult)],
        vec![Instruction::BrIf(0)],
        vec![Instruction::Br(0)],
        vec![Instruction::Br(3)],
        vec![Instruction::Else],
        vec![Instruction::Block(BlockType::NoResult), Instruction::Br(1)],
        vec![Instruction::Block(BlockType::NoResult), Instruction::I32Add],
    ] {
        assert_eq!(result_of(None, code), Err(ExecError::InvalidStackState));
    }
    // A result is declared and none is there.
    assert_eq!(
        result_of(Some(ValueType::I32), vec![Instruction::End]),
        Err(ExecError::InvalidStackState)
    );
    assert_eq!(
        result_of(Some(ValueType::I32), vec![Instruction::Return]),
        Err(ExecError::InvalidStackState)
    );
}

#[test]
fn traps_of_types() {
    for code in [
        vec![Instruction::I64Const(1), Instruction::I32Const(1), Instruction::I32Add],
        vec![Instruction::I32Const(1), Instruction::I64Const(1), Instruction::I32Add],
        vec![Instruction::F32Const(1), Instruction::If(BlockType::NoResult)],
        vec![Instruction::I64Const(0), Instruction::BrIf(0)],
    ] {
        assert_eq!(result_of(None, code), Err(ExecError::TypeMismatch));
    }
}

#[test]
fn a_trap_leaves_the_operands_on_the_stack() {
    let mut executor = executor_for(
        function(
            vec![],
            None,
            vec![Instruction::I64Const(1), Instruction::I32Const(2), Instruction::I32Add],
        ),
        vec![],
    );
    steps(&mut executor, 2);
    assert_eq!(executor.execute_step(), Err(ExecError::TypeMismatch));
    assert_eq!(executor.stack().values(), vec![Value::I64(1), Value::I32(2)]);
    assert_eq!(executor.pc().inst_index(), InstIndex(3));
}

#[test]
fn traps_of_the_code() {
    assert_eq!(result_of(None, vec![Instruction::Unreachable]), Err(ExecError::Unreachable));
    assert_eq!(
        result_of(None, vec![Instruction::Other("f64.sqrt".to_string())]),
        Err(ExecError::UnsupportedInstruction("f64.sqrt".to_string()))
    );
    for code in [
        vec![],
        vec![Instruction::Nop],
        vec![Instruction::GetGlobal(0)],
        vec![Instruction::I32Const(1), Instruction::SetGlobal(0)],
        vec![Instruction::Call(7)],
        vec![Instruction::Block(BlockType::NoResult), Instruction::Br(0)],
        vec![Instruction::I32Const(0), Instruction::If(BlockType::NoResult), Instruction::Nop],
    ] {
        assert_eq!(result_of(None, code), Err(ExecError::InvariantViolation));
    }
}

#[test]
fn an_unsupported_instruction_is_passed_over() {
    let mut executor = executor_for(
        function(
            vec![],
            Some(ValueType::I32),
            vec![
                Instruction::Other("drop".to_string()),
                Instruction::I32Const(3),
                Instruction::End,
            ],
        ),
        vec![],
    );
    assert_eq!(
        executor.execute_step(),
        Err(ExecError::UnsupportedInstruction("drop".to_string()))
    );
    assert_eq!(executor.pc().inst_index(), InstIndex(1));
    steps(&mut executor, 1);
    assert_eq!(executor.execute_step(), Ok(ExecSuccess::End));
    assert_eq!(executor.peek_result(), Ok(vec![Value::I32(3)]));
}

#[test]
fn a_block_keeps_its_results_in_their_order() {
    let mut executor = executor_for(
        function(
            vec![],
            None,
            vec![
                Instruction::I32Const(1),
                Instruction::Block(BlockType::NoResult),
                Instruction::I32Const(2),
                Instruction::I32Const(3),
                Instruction::End,
                Instruction::End,
            ],
        ),
        vec![],
    );
    steps(&mut executor, 4);
    assert_eq!(executor.stack().len(), 6);
    steps(&mut executor, 1);
    assert_eq!(executor.stack().len(), 5);
    assert_eq!(
        executor.stack().values(),
        vec![Value::I32(1), Value::I32(2), Value::I32(3)]
    );
    assert_eq!(executor.stack().current_frame_labels().len(), 1);
    assert_eq!(executor.pc().inst_index(), InstIndex(5));
}

#[test]
fn both_branches_of_an_if() {
    let choose = |condition: i32| {
        i32_result(vec![
            Instruction::I32Const(condition),
            Instruction::If(BlockType::Value(ValueType::I32)),
            Instruction::I32Const(10),
            Instruction::Else,
            Instruction::I32Const(20),
            Instruction::End,
            Instruction::End,
        ])
    };
    assert_eq!(choose(1), 10);
    assert_eq!(choose(-5), 10);
    assert_eq!(choose(0), 20);
}

#[test]
fn an_if_without_else_is_skipped() {
    let run = |condition: i32| {
        i32_result(vec![
            Instruction::I32Const(condition),
            Instruction::If(BlockType::NoResult),
            Instruction::I32Const(2),
            Instruction::SetLocal(0),
            Instruction::End,
            Instruction::GetLocal(0),
            Instruction::End,
        ])
    };
    assert_eq!(run(1), 2);
    assert_eq!(run(0), 0);
}

#[test]
fn values_under_a_label_are_out_of_reach() {
    assert_eq!(
        result_of(
            None,
            vec![
                Instruction::I32Const(1),
                Instruction::Block(BlockType::NoResult),
                Instruction::I32Const(1),
                Instruction::I32Add,
            ]
        ),
        Err(ExecError::InvalidStackState)
    );
}

#[test]
fn the_else_of_a_nested_if_is_not_taken_for_the_outer_one() {
    let run = |outer: i32, inner: i32| {
        i32_result(vec![
            Instruction::I32Const(outer),
            Instruction::If(BlockType::Value(ValueType::I32)),
            Instruction::I32Const(inner),
            Instruction::If(BlockType::Value(ValueType::I32)),
            Instruction::I32Const(11),
            Instruction::Else,
            Instruction::I32Const(12),
            Instruction::End,
            Instruction::Else,
            Instruction::I32Const(20),
            Instruction::End,
            Instruction::End,
        ])
    };
    assert_eq!(run(1, 1), 11);
    assert_eq!(run(1, 0), 12);
    assert_eq!(run(0, 1), 20);
    assert_eq!(run(0, 0), 20);
}

#[test]
fn a_branch_leaves_nested_blocks() {
    assert_eq!(
        i32_result(vec![
            Instruction::Block(BlockType::NoResult),
            Instruction::Block(BlockType::NoResult),
            Instruction::I32Const(5),
            Instruction::Br(1),
            Instruction::End,
            Instruction::Unreachable,
            Instruction::End,
            Instruction::I32Const(6),
            Instruction::End,
        ]),
        6
    );
    assert_eq!(
        i32_result(vec![
            Instruction::Block(BlockType::Value(ValueType::I32)),
            Instruction::I32Const(5),
            Instruction::Br(0),
            Instruction::Unreachable,
            Instruction::End,
            Instruction::End,
        ]),
        5
    );
}

#[test]
fn a_conditional_branch_that_is_not_taken_goes_on() {
    assert_eq!(
        i32_result(vec![
            Instruction::Block(BlockType::NoResult),
            Instruction::I32Const(0),
            Instruction::BrIf(0),
            Instruction::I32Const(1),
            Instruction::Return,
            Instruction::End,
            Instruction::I32Const(2),
            Instruction::End,
        ]),
        1
    );
    assert_eq!(
        i32_result(vec![
            Instruction::Block(BlockType::NoResult),
            Instruction::I32Const(9),
            Instruction::BrIf(0),
            Instruction::I32Const(1),
            Instruction::Return,
            Instruction::End,
            Instruction::I32Const(2),
            Instruction::End,
        ]),
        2
    );
}

#[test]
fn a_branch_to_a_loop_goes_to_its_first_instruction() {
    let mut executor = executor_for(
        function(
            vec![],
            None,
            vec![
                Instruction::Nop,
                Instruction::Loop(BlockType::NoResult),
                Instruction::I32Const(1),
                Instruction::Br(0),
                Instruction::End,
                Instruction::End,
            ],
        ),
        vec![],
    );
    steps(&mut executor, 2);
    assert_eq!(executor.pc().inst_index(), InstIndex(2));
    steps(&mut executor, 2);
    assert_eq!(executor.pc().inst_index(), InstIndex(2));
    assert_eq!(executor.stack().current_frame_labels().len(), 2);
    assert_eq!(executor.stack().values(), vec![Value::I32(1)]);
    steps(&mut executor, 2);
    assert_eq!(executor.pc().inst_index(), InstIndex(2));
    assert_eq!(executor.stack().values(), vec![Value::I32(1), Value::I32(1)]);
}

#[test]
fn the_end_of_a_loop_leaves_the_loop() {
    assert_eq!(
        i32_result(vec![
            Instruction::Loop(BlockType::NoResult),
            Instruction::Nop,
            Instruction::End,
            Instruction::I32Const(4),
            Instruction::End,
        ]),
        4
    );
}

#[test]
fn a_return_unwinds_the_labels() {
    assert_eq!(
        i32_result(vec![
            Instruction::Block(BlockType::NoResult),
            Instruction::Loop(BlockType::NoResult),
            Instruction::I32Const(1),
            Instruction::I32Const(2),
            Instruction::Return,
            Instruction::End,
            Instruction::End,
            Instruction::End,
        ]),
        2
    );
}

fn two_functions(callee: Vec<Instruction>, caller: Vec<Instruction>) -> Store<()> {
    let mut module = Module::new();
    module.types.push(FuncType::new(vec![ValueType::I32, ValueType::I32], Some(ValueType::I32)));
    module.types.push(FuncType::new(vec![], Some(ValueType::I32)));
    module.functions.push(0);
    module.functions.push(1);
    module.codes.push(FuncBody { locals: vec![ValueType::I64], code: callee });
    module.codes.push(FuncBody { locals: vec![], code: caller });
    let mut store: Store<()> = Store::new();
    assert_eq!(store.load_parity_module(None, module, 0), Ok(ModuleIndex(0)));
    store
}

#[test]
fn a_call_takes_the_arguments_and_leaves_the_result() {
    let store = two_functions(
        vec![Instruction::GetLocal(0), Instruction::GetLocal(1), Instruction::I32Sub, Instruction::End],
        vec![
            Instruction::I32Const(100),
            Instruction::I32Const(9),
            Instruction::I32Const(4),
            Instruction::Call(0),
            Instruction::I32Add,
            Instruction::End,
        ],
    );
    let addr = FuncAddr(ModuleIndex(0), 1);
    let mut executor =
        Executor::new(0, addr, vec![], ProgramCounter::new(addr, InstIndex(0)), store);
    for _ in 0..3 {
        assert_eq!(executor.execute_step(), Ok(ExecSuccess::Next));
    }
    let before = executor.stack().len();
    assert_eq!(executor.execute_step(), Ok(ExecSuccess::Next));
    // The two arguments went; the frame and its label came.
    assert_eq!(executor.stack().len(), before);
    let frame = executor.stack().current_frame().unwrap();
    assert_eq!(frame.func_addr, FuncAddr(ModuleIndex(0), 0));
    assert_eq!(frame.locals, vec![Value::I32(9), Value::I32(4), Value::I64(0)]);
    assert_eq!(frame.ret_pc, Some(ProgramCounter::new(addr, InstIndex(4))));
    assert_eq!(executor.pc(), ProgramCounter::new(FuncAddr(ModuleIndex(0), 0), InstIndex(0)));
    for _ in 0..3 {
        assert_eq!(executor.execute_step(), Ok(ExecSuccess::Next));
    }
    assert_eq!(executor.execute_step(), Ok(ExecSuccess::Next));
    // Back in the caller: the arguments are replaced by the result.
    assert_eq!(executor.pc(), ProgramCounter::new(addr, InstIndex(4)));
    assert_eq!(executor.stack().len(), before - 2 + 1);
    assert_eq!(executor.stack().values(), vec![Value::I32(100), Value::I32(5)]);
    assert_eq!(executor.peek_result(), Ok(vec![Value::I32(5)]));
    assert_eq!(executor.execute_step(), Ok(ExecSuccess::Next));
    assert_eq!(executor.execute_step(), Ok(ExecSuccess::End));
    assert_eq!(executor.peek_result(), Ok(vec![Value::I32(105)]));
    assert_eq!(executor.stack().len(), 1);
}

#[test]
fn a_return_inside_a_call_goes_back_to_the_caller() {
    let store = two_functions(
        vec![
            Instruction::Block(BlockType::NoResult),
            Instruction::I32Const(1),
            Instruction::GetLocal(1),
            Instruction::Return,
            Instruction::End,
            Instruction::Unreachable,
        ],
        vec![
            Instruction::I32Const(9),
            Instruction::I32Const(4),
            Instruction::Call(0),
            Instruction::End,
        ],
    );
    let mut store = store;
    assert_eq!(
        invoke_func(FuncAddr(ModuleIndex(0), 1), vec![], &mut store, 100),
        Ok(vec![Value::I32(4)])
    );
}

#[test]
fn a_call_without_its_arguments_traps() {
    let mut store = two_functions(
        vec![Instruction::I32Const(1), Instruction::End],
        vec![Instruction::I32Const(9), Instruction::Call(0), Instruction::End],
    );
    assert_eq!(
        invoke_func(FuncAddr(ModuleIndex(0), 1), vec![], &mut store, 100),
        Err(ExecError::InvalidStackState)
    );
}

fn store_with_host(
    ty: FuncType,
    answer: Result<Vec<Value>, String>,
    code: Vec<Instruction>,
) -> (Store<()>, Rc<RefCell<Vec<Vec<Value>>>>) {
    let seen = Rc::new(RefCell::new(Vec::new()));
    let mut store: Store<()> = Store::new();
    store.load_host_module(
        "env".to_string(),
        vec![
            Named::new(
                "f".to_string(),
                HostValue::Func(ty.clone(), Box::new(Scripted { answer, seen: seen.clone() })),
            ),
            Named::new(
                "fixed".to_string(),
                HostValue::Global(GlobalInstance::new(
                    Value::I32(3),
                    GlobalType::new(ValueType::I32, false),
                )),
            ),
            Named::new(
                "free".to_string(),
                HostValue::Global(GlobalInstance::new(
                    Value::I32(4),
                    GlobalType::new(ValueType::I32, true),
                )),
            ),
        ],
    );
    let mut module = Module::new();
    module.types.push(ty);
    module.types.push(FuncType::new(vec![], None));
    module.imports.push(ImportEntry {
        module: "env".to_string(),
        field: "f".to_string(),
        external: External::Function(0),
    });
    module.imports.push(ImportEntry {
        module: "env".to_string(),
        field: "fixed".to_string(),
        external: External::Global(GlobalType::new(ValueType::I32, false)),
    });
    module.imports.push(ImportEntry {
        module: "env".to_string(),
        field: "free".to_string(),
        external: External::Global(GlobalType::new(ValueType::I32, true)),
    });
    module.functions.push(1);
    module.codes.push(FuncBody { locals: vec![], code });
    assert_eq!(store.load_parity_module(None, module, 0), Ok(ModuleIndex(1)));
    (store, seen)
}

#[test]
fn a_host_function_gets_the_arguments_in_their_order() {
    let (mut store, seen) = store_with_host(
        FuncType::new(vec![ValueType::I32, ValueType::I64], Some(ValueType::I32)),
        Ok(vec![Value::I32(77)]),
        vec![
            Instruction::I32Const(5),
            Instruction::I32Const(1),
            Instruction::I64Const(2),
            Instruction::Call(0),
            Instruction::I32Add,
            Instruction::SetGlobal(1),
            Instruction::End,
        ],
    );
    let run = invoke_func(FuncAddr(ModuleIndex(1), 1), vec![], &mut store, 100);
    assert_eq!(*seen.borrow(), vec![vec![Value::I32(1), Value::I64(2)]]);
    assert_eq!(run, Ok(vec![]));
    assert_eq!(store.global(GlobalAddr(ModuleIndex(1), 1)).unwrap().value(), Value::I32(82));
}

#[test]
fn a_host_function_that_fails_traps() {
    let (store, _) = store_with_host(
        FuncType::new(vec![ValueType::I32], None),
        Err("no paper".to_string()),
        vec![Instruction::I32Const(5), Instruction::Call(0), Instruction::End],
    );
    let addr = FuncAddr(ModuleIndex(1), 1);
    let mut executor =
        Executor::new(0, addr, vec![], ProgramCounter::new(addr, InstIndex(0)), store);
    assert_eq!(executor.execute_step(), Ok(ExecSuccess::Next));
    assert_eq!(
        executor.execute_step(),
        Err(ExecError::HostCallError("no paper".to_string()))
    );
    assert_eq!(executor.stack().values(), vec![Value::I32(5)]);
}

#[test]
fn a_host_function_must_keep_to_its_type() {
    for (result, answer) in [
        (None, vec![Value::I32(1)]),
        (Some(ValueType::I32), vec![]),
        (Some(ValueType::I32), vec![Value::I64(1)]),
        (Some(ValueType::I32), vec![Value::I32(1), Value::I32(2)]),
    ] {
        let (mut store, _) = store_with_host(
            FuncType::new(vec![], result),
            Ok(answer),
            vec![Instruction::Call(0), Instruction::End],
        );
        assert_eq!(
            invoke_func(FuncAddr(ModuleIndex(1), 1), vec![], &mut store, 100),
            Err(ExecError::HostCallError(
                "host function returned values that do not match its type".to_string()
            ))
        );
    }
}

#[test]
fn a_host_function_can_be_run_by_itself() {
    let (mut store, seen) = store_with_host(
        FuncType::new(vec![ValueType::I32], Some(ValueType::I64)),
        Ok(vec![Value::I64(6)]),
        vec![Instruction::End],
    );
    assert_eq!(
        invoke_func(FuncAddr(ModuleIndex(1), 0), vec![Value::I32(2)], &mut store, 0),
        Ok(vec![Value::I64(6)])
    );
    assert_eq!(*seen.borrow(), vec![vec![Value::I32(2)]]);
    assert_eq!(
        invoke_func(FuncAddr(ModuleIndex(1), 0), vec![], &mut store, 0),
        Err(ExecError::InvalidStackState)
    );
}

#[test]
fn globals_are_read_and_written() {
    let (mut store, _) = store_with_host(
        FuncType::new(vec![], None),
        Ok(vec![]),
        vec![
            Instruction::GetGlobal(0),
            Instruction::GetGlobal(1),
            Instruction::I32Add,
            Instruction::SetGlobal(1),
            Instruction::End,
        ],
    );
    assert_eq!(invoke_func(FuncAddr(ModuleIndex(1), 1), vec![], &mut store, 100), Ok(vec![]));
    assert_eq!(store.global(GlobalAddr(ModuleIndex(1), 1)).unwrap().value(), Value::I32(7));
    assert_eq!(store.global(GlobalAddr(ModuleIndex(1), 0)).unwrap().value(), Value::I32(3));
}

#[test]
fn an_immutable_global_is_not_written() {
    let (store, _) = store_with_host(
        FuncType::new(vec![], None),
        Ok(vec![]),
        vec![Instruction::I32Const(9), Instruction::SetGlobal(0), Instruction::End],
    );
    let addr = FuncAddr(ModuleIndex(1), 1);
    let mut executor =
        Executor::new(0, addr, vec![], ProgramCounter::new(addr, InstIndex(0)), store);
    assert_eq!(executor.execute_step(), Ok(ExecSuccess::Next));
    assert_eq!(executor.execute_step(), Err(ExecError::InvariantViolation));
    assert_eq!(executor.stack().values(), vec![Value::I32(9)]);
    let store = executor.into_store();
    assert_eq!(store.global(GlobalAddr(ModuleIndex(1), 0)).unwrap().value(), Value::I32(3));
}

#[test]
fn the_step_limit_of_a_run() {
    let mut store = two_functions(
        vec![Instruction::I32Const(1), Instruction::End],
        vec![Instruction::I32Const(1), Instruction::Nop, Instruction::End],
    );
    let addr = FuncAddr(ModuleIndex(0), 1);
    assert_eq!(invoke_func(addr, vec![], &mut store, 2), Err(ExecError::StepLimitExceeded));
    assert_eq!(invoke_func(addr, vec![], &mut store, 3), Ok(vec![Value::I32(1)]));
    assert_eq!(invoke_func(addr, vec![], &mut store, 0), Err(ExecError::StepLimitExceeded));
    assert_eq!(
        invoke_func(FuncAddr(ModuleIndex(0), 9), vec![], &mut store, 5),
        Err(ExecError::InvariantViolation)
    );
}

#[test]
fn results_are_held_against_the_type() {
    // No value where one is declared cannot be seen after a clean end, so
    // the states are made by hand.
    let store = two_functions(
        vec![Instruction::I32Const(1), Instruction::End],
        vec![Instruction::I64Const(1), Instruction::End],
    );
    let addr = FuncAddr(ModuleIndex(0), 1);
    let mut executor =
        Executor::new(0, addr, vec![], ProgramCounter::new(addr, InstIndex(0)), store);
    assert_eq!(executor.execute_step(), Ok(ExecSuccess::Next));
    assert_eq!(executor.execute_step(), Ok(ExecSuccess::End));
    assert_eq!(
        executor.peek_result(),
        Err(ReturnValError::TypeMismatchReturnValue(Value::I64(1), ValueType::I32))
    );
    // After the end the counter stands behind the code.
    assert_eq!(executor.execute_step(), Err(ExecError::InvariantViolation));
}

#[test]
fn no_result_is_told_of_a_function_without_one() {
    let mut executor = executor_for(function(vec![], None, vec![Instruction::End]), vec![]);
    assert_eq!(executor.execute_step(), Ok(ExecSuccess::End));
    assert_eq!(executor.peek_result(), Ok(vec![]));
    assert_eq!(executor.stack().len(), 0);
    assert_eq!(executor.current_func_insts(), None);
}

#[test]
fn execution_errors_in_words() {
    assert_eq!(ExecError::Unreachable.message(), "unreachable executed");
    assert_eq!(
        ExecError::UnsupportedInstruction("nop2".to_string()).message(),
        "nop2 not supported yet"
    );
    assert_eq!(ExecError::HostCallError("x".to_string()).message(), "host call error: x");
    assert_eq!(ExecError::TypeMismatch.message(), "type mismatch");
    assert_eq!(ExecError::InvalidStackState.message(), "invalid stack state");
    assert_eq!(ExecError::InvariantViolation.message(), "invariant violation");
    assert_eq!(ExecError::StepLimitExceeded.message(), "step limit exceeded");
}

#[test]
fn stack_entries_of_a_running_call() {
    let mut executor = executor_for(
        function(vec![], None, vec![Instruction::Block(BlockType::NoResult), Instruction::End]),
        vec![],
    );
    steps(&mut executor, 1);
    let labels = executor.stack().current_frame_labels();
    assert_eq!(labels.len(), 2);
    assert_eq!(executor.stack().len(), 3);
    let _ = StackValue::Value(Value::I32(0));
}

#[test]
fn the_answer_of_a_host_function_is_settled() {
    let ty = FuncType::new(vec![ValueType::I32, ValueType::I32], Some(ValueType::I64));
    let fresh = || {
        let mut stack = Stack::new();
        stack.push_values(&vec![Value::I32(1), Value::I32(2), Value::I32(3)]);
        stack
    };
    let mut stack = fresh();
    assert_eq!(settle_host_call(&mut stack, &ty, Ok(vec![Value::I64(9)])), Ok(()));
    assert_eq!(stack.values(), vec![Value::I32(1), Value::I64(9)]);
    let mut stack = fresh();
    assert_eq!(
        settle_host_call(&mut stack, &ty, Err("denied".to_string())),
        Err(ExecError::HostCallError("denied".to_string()))
    );
    assert_eq!(stack.len(), 3);
    assert_eq!(
        settle_host_call(&mut stack, &ty, Ok(vec![Value::I32(9)])),
        Err(ExecError::HostCallError(
            "host function returned values that do not match its type".to_string()
        ))
    );
    assert_eq!(stack.len(), 3);
    let mut short = Stack::new();
    short.push_value(Value::I32(1));
    assert_eq!(
        settle_host_call(&mut short, &ty, Ok(vec![Value::I64(9)])),
        Err(ExecError::InvalidStackState)
    );
    assert_eq!(short.len(), 1);
}

#[test]
fn operations_on_a_bare_stack() {
    let mut stack = Stack::new();
    stack.push_values(&vec![Value::I32(7), Value::I32(5)]);
    assert_eq!(int_op(&mut stack, IntOp::Sub), Ok(()));
    assert_eq!(stack.values(), vec![Value::I32(2)]);
    assert_eq!(int_op(&mut stack, IntOp::Add), Err(ExecError::InvalidStackState));
    assert_eq!(pop_as(&mut stack), Ok(2));
    assert_eq!(pop_as(&mut stack), Err(ExecError::InvalidStackState));
    stack.push_value(Value::F32(1));
    assert_eq!(pop_as(&mut stack), Err(ExecError::TypeMismatch));
    assert_eq!(stack.len(), 1);
}

#[test]
fn a_branch_on_a_bare_stack() {
    let addr = FuncAddr(ModuleIndex(0), 0);
    let code = vec![
        Instruction::Block(BlockType::NoResult),
        Instruction::Loop(BlockType::NoResult),
        Instruction::Br(1),
        Instruction::End,
        Instruction::Nop,
        Instruction::End,
        Instruction::End,
    ];
    let fresh = || {
        let mut stack = Stack::new();
        stack.push_label(Label::Return);
        stack.push_label(Label::Block);
        stack.push_value(Value::I32(1));
        stack.push_label(Label::Loop(InstIndex(2)));
        stack.push_value(Value::I32(2));
        stack
    };
    // Out of the loop to the block: the counter lands on the end of the
    // block.
    let mut stack = fresh();
    let mut pc = ProgramCounter::new(addr, InstIndex(3));
    assert_eq!(branch(&mut stack, &code, &mut pc, 1), Ok(()));
    assert_eq!(pc.inst_index(), InstIndex(5));
    assert_eq!(stack.len(), 3);
    assert_eq!(stack.peek_last_label(), Some(Label::Block));
    // To the loop: the counter is set to the start of its body.
    let mut stack = fresh();
    let mut pc = ProgramCounter::new(addr, InstIndex(3));
    assert_eq!(branch(&mut stack, &code, &mut pc, 0), Ok(()));
    assert_eq!(pc.inst_index(), InstIndex(2));
    assert_eq!(stack.len(), 5);
    // To the label of the frame: no target.
    let mut stack = fresh();
    let mut pc = ProgramCounter::new(addr, InstIndex(3));
    assert_eq!(branch(&mut stack, &code, &mut pc, 2), Err(ExecError::InvalidStackState));
    assert_eq!(pc.inst_index(), InstIndex(3));
    assert_eq!(stack.len(), 5);
}

#[test]
fn a_result_that_was_taken_is_no_longer_told() {
    let store = two_functions(
        vec![Instruction::I32Const(1), Instruction::End],
        vec![
            Instruction::I32Const(1),
            Instruction::I32Const(2),
            Instruction::Call(0),
            Instruction::SetGlobal(0),
            Instruction::End,
        ],
    );
    let addr = FuncAddr(ModuleIndex(0), 1);
    let mut executor =
        Executor::new(0, addr, vec![], ProgramCounter::new(addr, InstIndex(0)), store);
    for _ in 0..5 {
        assert_eq!(executor.execute_step(), Ok(ExecSuccess::Next));
    }
    assert_eq!(executor.peek_result(), Ok(vec![Value::I32(1)]));
    // The global is not there, so the result stays where it is.
    assert_eq!(executor.execute_step(), Err(ExecError::InvariantViolation));
    assert_eq!(executor.peek_result(), Ok(vec![Value::I32(1)]));
}

#[test]
fn no_value_where_the_type_declares_one() {
    let store = two_functions(
        vec![Instruction::I32Const(1), Instruction::End],
        vec![
            Instruction::I32Const(1),
            Instruction::I32Const(2),
            Instruction::Call(0),
            Instruction::Block(BlockType::NoResult),
            Instruction::End,
            Instruction::End,
        ],
    );
    let addr = FuncAddr(ModuleIndex(0), 1);
    let mut executor =
        Executor::new(0, addr, vec![], ProgramCounter::new(addr, InstIndex(0)), store);
    for _ in 0..6 {
        assert_eq!(executor.execute_step(), Ok(ExecSuccess::Next));
    }
    // On top of the stack lies the label of the block.
    assert_eq!(executor.peek_result(), Err(ReturnValError::NoValue(ValueType::I32)));
}

struct Scaled;

impl HostFunction<i32> for Scaled {
    fn call(&self, args: &Vec<Value>, contexts: &EmbedContexts<i32>) -> Result<Vec<Value>, String> {
        match (contexts.get(7), args.first()) {
            (Some(factor), Some(Value::I32(v))) => Ok(vec![Value::I32(v * factor)]),
            _ => Err("no factor".to_string()),
        }
    }
}

#[test]
fn a_host_function_finds_the_contexts_of_the_store() {
    let mut store: Store<i32> = Store::new();
    store.load_host_module(
        "env".to_string(),
        vec![Named::new(
            "scale".to_string(),
            HostValue::Func(
                FuncType::new(vec![ValueType::I32], Some(ValueType::I32)),
                Box::new(Scaled),
            ),
        )],
    );
    let mut module = Module::new();
    module.types.push(FuncType::new(vec![ValueType::I32], Some(ValueType::I32)));
    module.types.push(FuncType::new(vec![], Some(ValueType::I32)));
    module.imports.push(ImportEntry {
        module: "env".to_string(),
        field: "scale".to_string(),
        external: External::Function(0),
    });
    module.functions.push(1);
    module.codes.push(FuncBody {
        locals: vec![],
        code: vec![Instruction::I32Const(6), Instruction::Call(0), Instruction::End],
    });
    assert_eq!(store.load_parity_module(None, module, 0), Ok(ModuleIndex(1)));
    let addr = FuncAddr(ModuleIndex(1), 1);
    assert_eq!(
        invoke_func(addr, vec![], &mut store, 100),
        Err(ExecError::HostCallError("no factor".to_string()))
    );
    store.add_embed_context(7, 5);
    assert_eq!(invoke_func(addr, vec![], &mut store, 100), Ok(vec![Value::I32(30)]));
    store.add_embed_context(7, -1);
    assert_eq!(invoke_func(addr, vec![], &mut store, 100), Ok(vec![Value::I32(-6)]));
}
