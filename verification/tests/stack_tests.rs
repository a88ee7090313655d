use wasminspect::address::{FuncAddr, ModuleIndex};
use wasminspect::func::{DefinedFunctionInstance, FuncType};
use wasminspect::inst::Instruction;
use wasminspect::stack::{CallFrame, InstIndex, Label, ProgramCounter, Stack, StackValue};
use wasminspect::value::{Value, ValueType};

fn addr(i: usize) -> FuncAddr {
    FuncAddr(ModuleIndex(0), i)
}

fn frame(i: usize, ret: Option<ProgramCounter>) -> CallFrame {
    CallFrame::new(addr(i), 2, vec![Value::I32(i as i32)], ret)
}

fn sample() -> Stack {
    // activation, Return, 1, Block, 2, 3, Loop, 4
    let mut stack = Stack::new();
    stack.set_frame(frame(0, None));
    stack.push_label(Label::Return);
    stack.push_value(Value::I32(1));
    stack.push_label(Label::Block);
    stack.push_value(Value::I32(2));
    stack.push_value(Value::I32(3));
    stack.push_label(Label::new_loop(InstIndex(7)));
    stack.push_value(Value::I32(4));
    stack
}

#[test]
fn program_counter_moves() {
    let mut pc = ProgramCounter::new(addr(3), InstIndex::zero());
    assert_eq!(pc.func_addr(), addr(3));
    assert_eq!(pc.inst_index(), InstIndex(0));
    pc.inc_inst_index();
    pc.inc_inst_index();
    assert_eq!(pc.inst_index(), InstIndex(2));
    pc.loop_jump(InstIndex(9));
    assert_eq!(pc, ProgramCounter::new(addr(3), InstIndex(9)));
}

#[test]
fn a_frame_pads_its_locals_with_zeros() {
    let frame = CallFrame::new(addr(1), 3, vec![Value::I64(5)], None);
    assert_eq!(frame.locals, vec![Value::I64(5), Value::I32(0), Value::I32(0)]);
    assert_eq!(frame.local(0), Some(Value::I64(5)));
    assert_eq!(frame.local(3), None);
    let exact = CallFrame::new(addr(1), 1, vec![Value::I64(5)], None);
    assert_eq!(exact.locals, vec![Value::I64(5)]);
}

#[test]
fn a_frame_of_a_function_has_typed_zeros() {
    let function = DefinedFunctionInstance::new(
        "f".to_string(),
        FuncType::new(vec![ValueType::I32], None),
        ModuleIndex(0),
        vec![ValueType::I64, ValueType::F32, ValueType::F64, ValueType::I32],
        vec![Instruction::End],
    );
    let ret = ProgramCounter::new(addr(0), InstIndex(4));
    let frame = CallFrame::new_from_func(addr(1), &function, vec![Value::I32(9)], Some(ret));
    assert_eq!(
        frame.locals,
        vec![Value::I32(9), Value::I64(0), Value::F32(0), Value::F64(0), Value::I32(0)]
    );
    assert_eq!(frame.ret_pc, Some(ret));
    assert_eq!(frame.func_addr, addr(1));
}

#[test]
fn values_are_pushed_and_popped() {
    let mut stack = Stack::new();
    assert_eq!(stack.len(), 0);
    assert_eq!(stack.pop_value(), None);
    assert_eq!(stack.peek_last_value(), None);
    stack.push_value(Value::I32(1));
    stack.push_value(Value::I64(2));
    assert_eq!(stack.peek_last_value(), Some(Value::I64(2)));
    assert_eq!(stack.len(), 2);
    assert_eq!(stack.pop_value(), Some(Value::I64(2)));
    assert_eq!(stack.pop_value(), Some(Value::I32(1)));
    assert_eq!(stack.pop_value(), None);
}

#[test]
fn a_value_is_not_popped_through_a_label() {
    let mut stack = Stack::new();
    stack.push_value(Value::I32(1));
    stack.push_label(Label::Block);
    assert_eq!(stack.pop_value(), None);
    assert_eq!(stack.peek_last_value(), None);
    assert_eq!(stack.len(), 2);
    assert_eq!(stack.pop_label(), Some(Label::Block));
    assert_eq!(stack.pop_label(), None);
    assert_eq!(stack.pop_value(), Some(Value::I32(1)));
}

#[test]
fn the_innermost_label_lies_under_the_values() {
    let mut stack = sample();
    assert_eq!(stack.top_values(), 1);
    assert_eq!(stack.peek_last_label(), Some(Label::Loop(InstIndex(7))));
    assert_eq!(stack.innermost_label_below(6), Some(Label::Block));
    assert_eq!(stack.innermost_label_below(3), Some(Label::Return));
    assert_eq!(stack.innermost_label_below(1), None);
    assert_eq!(stack.innermost_label_below(0), None);
    assert_eq!(
        stack.current_frame_labels(),
        vec![Label::Return, Label::Block, Label::Loop(InstIndex(7))]
    );
    stack.set_frame(frame(1, None));
    assert_eq!(stack.peek_last_label(), None);
    assert_eq!(stack.current_frame_labels(), vec![]);
}

#[test]
fn labels_are_popped_with_the_values_above_them() {
    let stack = sample();
    assert_eq!(stack.unwound_len(0), Some(8));
    assert_eq!(stack.unwound_len(1), Some(6));
    assert_eq!(stack.unwound_len(2), Some(3));
    assert_eq!(stack.unwound_len(3), Some(1));
    assert_eq!(stack.unwound_len(4), None);
    let mut stack = sample();
    assert!(stack.pop_labels(2));
    assert_eq!(stack.len(), 3);
    assert_eq!(stack.values(), vec![Value::I32(1)]);
    let mut stack = sample();
    assert!(!stack.pop_labels(4));
    assert_eq!(stack.len(), 8);
    assert!(stack.pop_labels(0));
    assert_eq!(stack.len(), 8);
}

#[test]
fn closing_a_label_keeps_the_values_above_it() {
    let mut stack = sample();
    stack.push_value(Value::I32(5));
    assert_eq!(stack.close_label(), Some(Label::Loop(InstIndex(7))));
    assert_eq!(
        stack.values(),
        vec![Value::I32(1), Value::I32(2), Value::I32(3), Value::I32(4), Value::I32(5)]
    );
    assert_eq!(stack.current_frame_labels(), vec![Label::Return, Label::Block]);
    assert_eq!(stack.close_label(), Some(Label::Block));
    assert_eq!(stack.top_values(), 5);
    assert_eq!(stack.close_label(), Some(Label::Return));
    assert_eq!(stack.close_label(), None);
    assert_eq!(stack.len(), 6);
}

#[test]
fn the_current_frame_is_the_topmost_activation() {
    let mut stack = Stack::new();
    assert!(stack.current_frame().is_none());
    assert_eq!(stack.current_func_addr(), None);
    assert_eq!(stack.local(0), None);
    assert!(!stack.set_local(0, Value::I32(1)));
    assert!(!stack.pop_frame());
    stack.set_frame(frame(1, None));
    stack.push_value(Value::I32(8));
    let ret = ProgramCounter::new(addr(1), InstIndex(3));
    stack.set_frame(frame(2, Some(ret)));
    stack.push_label(Label::Return);
    stack.push_value(Value::I32(9));
    assert_eq!(stack.current_func_addr(), Some(addr(2)));
    assert_eq!(stack.current_frame().unwrap().ret_pc, Some(ret));
    assert_eq!(stack.local(0), Some(Value::I32(2)));
    assert!(stack.set_local(1, Value::I64(6)));
    assert!(!stack.set_local(2, Value::I64(6)));
    assert_eq!(stack.local(1), Some(Value::I64(6)));
    assert_eq!(stack.len(), 5);
    assert!(stack.pop_frame());
    assert_eq!(stack.len(), 2);
    assert_eq!(stack.current_func_addr(), Some(addr(1)));
    assert_eq!(stack.local(0), Some(Value::I32(1)));
    assert_eq!(stack.local(1), Some(Value::I32(0)));
}

#[test]
fn a_frame_returns_with_its_results() {
    let mut stack = Stack::new();
    stack.push_value(Value::I32(7));
    stack.set_frame(frame(1, None));
    stack.push_label(Label::Return);
    stack.push_value(Value::I32(1));
    stack.push_label(Label::Block);
    stack.push_value(Value::I32(2));
    stack.push_value(Value::I32(3));
    assert!(!stack.return_frame(3));
    assert_eq!(stack.len(), 7);
    assert!(stack.return_frame(2));
    assert_eq!(stack.values(), vec![Value::I32(7), Value::I32(2), Value::I32(3)]);
    assert_eq!(stack.len(), 3);
    assert!(!stack.return_frame(0));
    let mut stack = Stack::new();
    stack.set_frame(frame(1, None));
    stack.push_value(Value::I32(2));
    assert!(stack.return_frame(0));
    assert_eq!(stack.len(), 0);
}

#[test]
fn values_on_top_are_read_and_pushed() {
    let mut stack = sample();
    stack.push_values(&vec![Value::I64(1), Value::I64(2)]);
    assert_eq!(stack.top_values(), 3);
    assert_eq!(stack.peek_values(0), vec![]);
    assert_eq!(stack.peek_values(2), vec![Value::I64(1), Value::I64(2)]);
    assert_eq!(stack.peek_values(3), vec![Value::I32(4), Value::I64(1), Value::I64(2)]);
    stack.truncate(2);
    assert_eq!(stack.len(), 2);
    assert_eq!(stack.top_values(), 0);
}

#[test]
fn pop_while_hands_back_the_topmost_first() {
    let mut stack = sample();
    let popped = stack.pop_while(|entry| matches!(entry, StackValue::Value(_)));
    assert_eq!(popped, vec![StackValue::Value(Value::I32(4))]);
    let popped = stack.pop_while(|entry| !matches!(entry, StackValue::Activation(_)));
    assert_eq!(popped.len(), 6);
    assert_eq!(popped[0], StackValue::Label(Label::Loop(InstIndex(7))));
    assert_eq!(popped[1], StackValue::Value(Value::I32(3)));
    assert_eq!(popped[5], StackValue::Label(Label::Return));
    assert_eq!(popped[5].as_value(), None);
    assert_eq!(popped[1].as_value(), Some(Value::I32(3)));
    assert_eq!(stack.len(), 1);
    let popped = stack.pop_while(|_| false);
    assert_eq!(popped, vec![]);
    let popped = stack.pop_while(|_| true);
    assert_eq!(popped.len(), 1);
    assert_eq!(stack.pop_while(|_| true), vec![]);
}

#[test]
fn the_run_is_over_when_the_entry_frame_has_no_label() {
    let mut stack = Stack::new();
    assert!(!stack.is_over_top_level());
    stack.set_frame(frame(0, None));
    assert!(stack.is_over_top_level());
    stack.push_value(Value::I32(1));
    assert!(stack.is_over_top_level());
    stack.push_label(Label::Return);
    assert!(!stack.is_over_top_level());
    assert_eq!(stack.pop_label(), Some(Label::Return));
    let ret = ProgramCounter::new(addr(0), InstIndex(1));
    stack.set_frame(frame(1, Some(ret)));
    assert!(!stack.is_over_top_level());
}

#[test]
fn the_values_of_the_stack_come_lowest_first() {
    assert_eq!(
        sample().values(),
        vec![Value::I32(1), Value::I32(2), Value::I32(3), Value::I32(4)]
    );
    assert_eq!(Stack::new().values(), vec![]);
}
