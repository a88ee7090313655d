use wasminspect::address::{FuncAddr, ModuleIndex};
use wasminspect::commands::StackCommand;
use wasminspect::func::FuncType;
use wasminspect::global::{GlobalInstance, GlobalType};
use wasminspect::inst::{InitExpr, Instruction};
use wasminspect::linker::LinkableCollection;
use wasminspect::memory::{Error as MemoryError, MemoryInstance, PAGE_SIZE};
use wasminspect::names::{lookup, Named};
use wasminspect::store::{eval_const_expr, eval_offset, Error};
use wasminspect::table::{Error as TableError, TableInstance};
use wasminspect::text::{decimal_string, push_decimal, push_hexadecimal, push_signed_decimal};
use wasminspect::value::{offset_from_i32, Value, ValueType};

#[test]
fn value_types_and_extraction() {
    assert_eq!(Value::I32(1).value_type(), ValueType::I32);
    assert_eq!(Value::I64(1).value_type(), ValueType::I64);
    assert_eq!(Value::F32(1).value_type(), ValueType::F32);
    assert_eq!(Value::F64(1).value_type(), ValueType::F64);
    assert_eq!(Value::I32(-4).as_i32(), Some(-4));
    assert_eq!(Value::I64(-4).as_i32(), None);
    assert_eq!(Value::I64(-4).as_i64(), Some(-4));
    assert_eq!(Value::F32(7).as_i64(), None);
    assert_eq!(Value::F32(7).as_f32_bits(), Some(7));
    assert_eq!(Value::F64(7).as_f32_bits(), None);
    assert_eq!(Value::F64(7).as_f64_bits(), Some(7));
    assert_eq!(Value::I32(7).as_f64_bits(), None);
    assert_eq!(Value::default_for(ValueType::I64), Value::I64(0));
    assert_eq!(Value::default_for(ValueType::F32), Value::F32(0));
}

#[test]
fn values_in_words() {
    assert_eq!(Value::I32(-12).to_text(), "I32(-12)");
    assert_eq!(Value::I32(i32::MIN).to_text(), "I32(-2147483648)");
    assert_eq!(Value::I64(i64::MIN).to_text(), "I64(-9223372036854775808)");
    assert_eq!(Value::I64(i64::MAX).to_text(), "I64(9223372036854775807)");
    assert_eq!(Value::F32(0x3f80_0000).to_text(), "F32(0x3f800000)");
    assert_eq!(Value::F64(0).to_text(), "F64(0x0)");
}

#[test]
fn numbers_in_words() {
    assert_eq!(decimal_string(0), "0");
    assert_eq!(decimal_string(9), "9");
    assert_eq!(decimal_string(10), "10");
    assert_eq!(decimal_string(1_000_000), "1000000");
    assert_eq!(decimal_string(u64::MAX), "18446744073709551615");
    let mut out = "x=".to_string();
    push_decimal(&mut out, 42);
    push_signed_decimal(&mut out, -42);
    push_signed_decimal(&mut out, 0);
    push_hexadecimal(&mut out, 0xdead_beef);
    push_hexadecimal(&mut out, 0);
    push_hexadecimal(&mut out, 16);
    assert_eq!(out, "x=42-420deadbeef010");
}

#[test]
fn offsets_are_unsigned() {
    assert_eq!(offset_from_i32(0), 0);
    assert_eq!(offset_from_i32(i32::MAX), 0x7fff_ffff);
    assert_eq!(offset_from_i32(-1), 0xffff_ffff);
    assert_eq!(offset_from_i32(i32::MIN), 0x8000_0000);
}

#[test]
fn signatures_are_compared_by_their_types() {
    let a = FuncType::new(vec![ValueType::I32, ValueType::I64], Some(ValueType::F32));
    assert!(a.equals(&a.duplicate()));
    assert_eq!(a.duplicate(), a);
    assert_eq!(a.params(), &vec![ValueType::I32, ValueType::I64]);
    assert_eq!(a.return_type(), Some(ValueType::F32));
    assert!(!a.equals(&FuncType::new(vec![ValueType::I64, ValueType::I32], Some(ValueType::F32))));
    assert!(!a.equals(&FuncType::new(vec![ValueType::I32], Some(ValueType::F32))));
    assert!(!a.equals(&FuncType::new(vec![ValueType::I32, ValueType::I64], None)));
    assert!(!a.equals(&FuncType::new(vec![ValueType::I32, ValueType::I64], Some(ValueType::F64))));
    assert!(FuncType::new(vec![], None).equals(&FuncType::new(vec![], None)));
    let mut text = String::new();
    a.push_text(&mut text);
    assert_eq!(text, "(I32, I64) -> F32");
    assert!(a.accepts_results(&vec![Value::F32(1)]));
    assert!(!a.accepts_results(&vec![Value::F64(1)]));
    assert!(!a.accepts_results(&vec![]));
    assert!(FuncType::new(vec![], None).accepts_results(&vec![]));
    assert!(!FuncType::new(vec![], None).accepts_results(&vec![Value::I32(1)]));
}

#[test]
fn instructions_are_copied() {
    for inst in [
        Instruction::Other("memory.grow".to_string()),
        Instruction::I64Const(-1),
        Instruction::BrIf(3),
        Instruction::End,
    ] {
        assert_eq!(inst.duplicate(), inst);
    }
    let expr = InitExpr::new(vec![Instruction::I32Const(1), Instruction::End]);
    assert_eq!(expr.code(), &vec![Instruction::I32Const(1), Instruction::End]);
}

#[test]
fn names_bind_the_latest_entry() {
    let mut entries = vec![Named::new("a".to_string(), 1), Named::new("b".to_string(), 2)];
    assert_eq!(lookup(&entries, &"a".to_string()), Some(&1));
    assert_eq!(lookup(&entries, &"b".to_string()), Some(&2));
    assert_eq!(lookup(&entries, &"c".to_string()), None);
    entries.push(Named::new("a".to_string(), 3));
    assert_eq!(lookup(&entries, &"a".to_string()), Some(&3));
    let none: Vec<Named<u8>> = vec![];
    assert_eq!(lookup(&none, &"a".to_string()), None);
}

#[test]
fn a_collection_links_items_to_modules() {
    let mut items: LinkableCollection<&str> = LinkableCollection::new();
    let a = ModuleIndex(0);
    let b = ModuleIndex(5);
    assert_eq!(items.len(), 0);
    assert!(items.is_empty(a));
    assert_eq!(items.push_global("host"), 0);
    assert_eq!(items.resolve(a, 0), None);
    assert_eq!(items.push(a, "first"), 0);
    assert_eq!(items.push(a, "second"), 1);
    assert_eq!(items.link(0, b), 0);
    assert_eq!(items.link(2, b), 1);
    assert_eq!(items.push(b, "third"), 2);
    assert_eq!(items.len(), 4);
    assert_eq!(items.count(a), 2);
    assert_eq!(items.count(b), 3);
    assert!(!items.is_empty(b));
    assert_eq!(items.resolve(a, 0), Some(1));
    assert_eq!(items.resolve(a, 1), Some(2));
    assert_eq!(items.resolve(a, 2), None);
    assert_eq!(items.resolve(b, 0), Some(0));
    assert_eq!(items.resolve(b, 1), Some(2));
    assert_eq!(items.resolve(b, 2), Some(3));
    assert_eq!(items.get(b, 1), Some((&"second", 2)));
    assert_eq!(items.get(b, 3), None);
    assert_eq!(items.get(ModuleIndex(1), 0), None);
    assert_eq!(items.get_global(3), &"third");
    *items.get_global_mut(3) = "changed";
    assert_eq!(items.get(b, 2), Some((&"changed", 3)));
    // Forgetting a module leaves the items and the other modules.
    items.remove_module(b);
    assert_eq!(items.count(b), 0);
    assert_eq!(items.resolve(b, 0), None);
    assert_eq!(items.len(), 4);
    assert_eq!(items.resolve(a, 1), Some(2));
    items.discard_from(3);
    assert_eq!(items.len(), 3);
    assert_eq!(items.get(a, 1), Some((&"second", 2)));
    items.remove_module(ModuleIndex(9));
    assert_eq!(items.len(), 3);
}

#[test]
fn a_memory_is_written_inside_its_bounds() {
    let mut memory = MemoryInstance::new(1, Some(3));
    assert_eq!(memory.initial(), 1);
    assert_eq!(memory.max(), Some(3));
    assert_eq!(memory.data_len(), 65536);
    assert_eq!(PAGE_SIZE, 65536);
    assert!(memory.raw_data().iter().all(|b| *b == 0));
    assert_eq!(memory.validate_region(0, 65536), Ok(()));
    assert_eq!(memory.validate_region(65536, 0), Ok(()));
    assert_eq!(memory.validate_region(65535, 2), Err(MemoryError::OutOfBounds));
    assert_eq!(memory.validate_region(65537, 0), Err(MemoryError::OutOfBounds));
    assert_eq!(memory.validate_region(usize::MAX, 2), Err(MemoryError::OutOfBounds));
    assert_eq!(memory.store(10, &vec![1, 2, 3]), Ok(()));
    assert_eq!(memory.store(12, &vec![9]), Ok(()));
    assert_eq!(memory.raw_data()[9..14].to_vec(), vec![0u8, 1, 2, 9, 0]);
    assert_eq!(memory.store(65534, &vec![1, 2, 3]), Err(MemoryError::OutOfBounds));
    assert_eq!(memory.raw_data()[65534..].to_vec(), vec![0u8, 0]);
    assert_eq!(memory.store(65534, &vec![7, 8]), Ok(()));
    assert_eq!(memory.raw_data()[65534..].to_vec(), vec![7u8, 8]);
    assert_eq!(MemoryInstance::new(0, None).data_len(), 0);
}

#[test]
fn a_table_is_initialized_inside_its_bounds() {
    let f = |i| FuncAddr(ModuleIndex(2), i);
    let mut table = TableInstance::new(3, None);
    assert_eq!(table.initial(), 3);
    assert_eq!(table.max(), None);
    assert_eq!(table.buffer_len(), 3);
    assert_eq!(table.get_at(0), None);
    assert_eq!(table.validate_region(1, 2), Ok(()));
    assert_eq!(table.validate_region(1, 3), Err(TableError::OutOfBounds));
    assert_eq!(table.initialize(1, &vec![f(4), f(5)]), Ok(()));
    assert_eq!(table.get_at(0), None);
    assert_eq!(table.get_at(1), Some(f(4)));
    assert_eq!(table.get_at(2), Some(f(5)));
    assert_eq!(table.get_at(3), None);
    assert_eq!(table.initialize(2, &vec![f(6), f(7)]), Err(TableError::OutOfBounds));
    assert_eq!(table.get_at(2), Some(f(5)));
    assert_eq!(table.initialize(3, &vec![]), Ok(()));
}

#[test]
fn a_global_keeps_its_type() {
    let ty = GlobalType::new(ValueType::I64, true);
    assert_eq!(ty.content_type(), ValueType::I64);
    assert!(ty.is_mutable());
    let mut global = GlobalInstance::new(Value::I64(1), ty);
    global.set_value(Value::I64(2));
    assert_eq!(global.value(), Value::I64(2));
    assert_eq!(global.ty(), ty);
    assert!(global.is_mutable());
}

#[test]
fn constant_expressions_are_evaluated() {
    let module = ModuleIndex(3);
    let mut globals: LinkableCollection<GlobalInstance> = LinkableCollection::new();
    let fixed = globals.push_global(GlobalInstance::new(
        Value::I64(11),
        GlobalType::new(ValueType::I64, false),
    ));
    let free = globals.push_global(GlobalInstance::new(
        Value::I32(12),
        GlobalType::new(ValueType::I32, true),
    ));
    globals.link(fixed, module);
    globals.link(free, module);
    globals.push(module, GlobalInstance::new(Value::I32(13), GlobalType::new(ValueType::I32, false)));
    let eval = |code: Vec<Instruction>| eval_const_expr(&InitExpr::new(code), &globals, module, 2);
    assert_eq!(eval(vec![Instruction::I32Const(-3), Instruction::End]), Ok(Value::I32(-3)));
    assert_eq!(eval(vec![Instruction::I64Const(3)]), Ok(Value::I64(3)));
    assert_eq!(eval(vec![Instruction::F32Const(3)]), Ok(Value::F32(3)));
    assert_eq!(eval(vec![Instruction::F64Const(3)]), Ok(Value::F64(3)));
    assert_eq!(eval(vec![Instruction::GetGlobal(0)]), Ok(Value::I64(11)));
    assert_eq!(eval(vec![Instruction::GetGlobal(1)]), Err(Error::UnsupportedInitExpr));
    assert_eq!(eval(vec![Instruction::GetGlobal(2)]), Err(Error::UnsupportedInitExpr));
    assert_eq!(eval(vec![Instruction::GetGlobal(3)]), Err(Error::UnsupportedInitExpr));
    assert_eq!(eval(vec![Instruction::End]), Err(Error::UnsupportedInitExpr));
    assert_eq!(eval(vec![]), Err(Error::UnsupportedInitExpr));
    let offset = |code: Vec<Instruction>| eval_offset(&InitExpr::new(code), &globals, module, 2);
    assert_eq!(offset(vec![Instruction::I32Const(8)]), Ok(8));
    assert_eq!(offset(vec![Instruction::I32Const(-2)]), Ok(0xffff_fffe));
    assert_eq!(offset(vec![Instruction::I64Const(8)]), Err(Error::UnsupportedInitExpr));
    assert_eq!(offset(vec![Instruction::GetGlobal(0)]), Err(Error::UnsupportedInitExpr));
}

#[test]
fn the_stack_command_lists_the_values() {
    let command = StackCommand::new();
    assert_eq!(command.name(), "stack");
    assert_eq!(command.description(), "Commands for operating stack.");
    assert_eq!(command.run(&vec![]), Vec::<String>::new());
    let values: Vec<Value> = (0..11).map(|i| Value::I32(i * 2)).collect();
    let lines = command.run(&values);
    assert_eq!(lines.len(), 11);
    assert_eq!(lines[0], "0: I32(0)");
    assert_eq!(lines[1], "1: I32(2)");
    assert_eq!(lines[10], "10: I32(20)");
    assert_eq!(
        command.run(&vec![Value::I64(-1), Value::F64(255)]),
        vec!["0: I64(-1)".to_string(), "1: F64(0xff)".to_string()]
    );
}
