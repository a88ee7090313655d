//! The interpreter: one instruction per step.
//!
//! A step fetches the instruction at the program counter, moves the counter
//! on, and then executes the instruction on the stack and the store. A step
//! that traps leaves the stack and the store as they were, so that a
//! debugger can look at them.
use crate::address::{FuncAddr, GlobalAddr, ModuleIndex};
use crate::func::{
    DefinedFunctionInstance, FuncType, FuncTypeView, FunctionInstance, FunctionView,
};
use crate::global::GlobalInstance;
use crate::inst::Instruction;
use crate::linker::LinkableView;
use crate::stack::{
    as_entries, current_frame, frame_base, initial_locals, innermost_label,
    lemma_top_values_bound, over_top_level, padded_locals, top_values, under_values, unwound_len,
    values_on_top, CallFrame, Entry, FrameView, InstIndex, Label, ProgramCounter, Stack,
};
use crate::store::Store;
use crate::value::{wrap_i32, Value, ValueType};
use vstd::prelude::*;
use vstd::string::*;

verus! {

/// Why a step did not complete.
#[derive(Clone, Debug, PartialEq, Eq)]
pub enum ExecError {
    /// The `unreachable` instruction was executed.
    Unreachable,
    /// An instruction that the interpreter does not execute, by its name.
    UnsupportedInstruction(String),
    /// A value on the stack has another type than the instruction takes.
    TypeMismatch,
    /// The stack does not hold the values, labels or frame that the
    /// instruction takes.
    InvalidStackState,
    /// The code asks for what the store cannot give: a write to an
    /// immutable global, a function or global that is not there, a scope
    /// that is never closed.
    InvariantViolation,
    /// A host function failed, or handed back what its type does not allow.
    HostCallError(String),
    /// A run was granted a number of steps and did not end within them.
    StepLimitExceeded,
}

/// A trap as plain values.
pub enum Trap {
    Unreachable,
    UnsupportedInstruction(Seq<char>),
    TypeMismatch,
    InvalidStackState,
    InvariantViolation,
    HostCallError(Seq<char>),
    StepLimitExceeded,
}

impl View for ExecError {
    type V = Trap;

    open spec fn view(&self) -> Trap {
        match self {
            ExecError::Unreachable => Trap::Unreachable,
            ExecError::UnsupportedInstruction(name) => Trap::UnsupportedInstruction(name@),
            ExecError::TypeMismatch => Trap::TypeMismatch,
            ExecError::InvalidStackState => Trap::InvalidStackState,
            ExecError::InvariantViolation => Trap::InvariantViolation,
            ExecError::HostCallError(msg) => Trap::HostCallError(msg@),
            ExecError::StepLimitExceeded => Trap::StepLimitExceeded,
        }
    }
}

/// A trap in words.
pub open spec fn trap_text(trap: Trap) -> Seq<char> {
    match trap {
        Trap::Unreachable => "unreachable executed"@,
        Trap::UnsupportedInstruction(name) => name + " not supported yet"@,
        Trap::TypeMismatch => "type mismatch"@,
        Trap::InvalidStackState => "invalid stack state"@,
        Trap::InvariantViolation => "invariant violation"@,
        Trap::HostCallError(msg) => "host call error: "@ + msg,
        Trap::StepLimitExceeded => "step limit exceeded"@,
    }
}

impl ExecError {
    /// The error in words.
    pub fn message(&self) -> (s: String)
        ensures
            s@ == trap_text(self@),
    {
        let mut s = String::new();
        match self {
            ExecError::Unreachable => s.append("unreachable executed"),
            ExecError::UnsupportedInstruction(name) => {
                s.append(name.as_str());
                s.append(" not supported yet");
            },
            ExecError::TypeMismatch => s.append("type mismatch"),
            ExecError::InvalidStackState => s.append("invalid stack state"),
            ExecError::InvariantViolation => s.append("invariant violation"),
            ExecError::HostCallError(msg) => {
                s.append("host call error: ");
                s.append(msg.as_str());
            },
            ExecError::StepLimitExceeded => s.append("step limit exceeded"),
        }
        assert(s@ =~= trap_text(self@));
        s
    }
}

/// How a step that completed ended.
#[derive(Clone, Copy, Debug, PartialEq, Eq, Structural)]
pub enum ExecSuccess {
    /// There is a next instruction to execute.
    Next,
    /// The entry function is complete.
    End,
}

/// What a step gives.
pub type ExecResult = Result<ExecSuccess, ExecError>;

/// Why the results of the last call cannot be told.
#[derive(Clone, Copy, Debug, PartialEq, Eq, Structural)]
pub enum ReturnValError {
    /// The value on top of the stack has another type than the function
    /// declares.
    TypeMismatchReturnValue(Value, ValueType),
    /// The function declares a result of this type and no value lies on top
    /// of the stack.
    NoValue(ValueType),
    /// No call has completed.
    NoCallFrame,
}

/// What is told of the results of the last call.
pub type ReturnValResult = Result<Vec<Value>, ReturnValError>;

/// The binary operations on 32-bit integers.
#[derive(Clone, Copy, Debug, PartialEq, Eq, Structural)]
pub enum IntOp {
    Add,
    Sub,
    Mul,
    Eq,
    LtS,
}

/// What the interpreter reads of the store: the functions, and the
/// globals, which alone it writes.
pub struct Env {
    pub funcs: LinkableView<FunctionView>,
    pub globals: LinkableView<GlobalInstance>,
}

impl Env {
    /// The same with other values in the globals.
    pub open spec fn with_globals(self, items: Seq<GlobalInstance>) -> Env {
        Env { funcs: self.funcs, globals: LinkableView { items, locals: self.globals.locals } }
    }
}

/// What a host function answered: its results, or its message.
pub type HostResult = Result<Seq<Value>, Seq<char>>;

/// The state of the machine besides the store.
pub struct MachineView {
    pub pc: ProgramCounter,
    pub stack: Seq<Entry>,
    /// The function of the call that completed last.
    pub last_ret: Option<FuncAddr>,
}

/// What one step leaves behind. Of the store a step changes the globals
/// only.
pub struct Outcome {
    pub pc: ProgramCounter,
    pub stack: Seq<Entry>,
    pub last_ret: Option<FuncAddr>,
    pub globals: Seq<GlobalInstance>,
    pub result: Result<ExecSuccess, Trap>,
}

/// The stack and the program counter after an instruction that changes
/// nothing else, or the trap it ends in.
pub type Moved = Result<(Seq<Entry>, ProgramCounter), Trap>;

/// The message of the trap for a host function that hands back values
/// which its type does not allow.
pub open spec fn host_mismatch_message() -> Seq<char> {
    "host function returned values that do not match its type"@
}

/// The counter moved to the next instruction.
pub open spec fn advanced(pc: ProgramCounter) -> ProgramCounter {
    ProgramCounter { func_addr: pc.func_addr, inst_index: InstIndex((pc.inst_index.0
        + 1) as usize) }
}

/// The function that the counter points into, where the store has it, a
/// module defines it, and the counter lies inside its body.
pub open spec fn fetched(env: Env, pc: ProgramCounter) -> Option<
    DefinedFunctionInstance,
> {
    match env.funcs.resolve(pc.func_addr.0, pc.func_addr.1) {
        Some(handle) => match env.funcs.items[handle as int] {
            FunctionView::Defined(f) => if pc.inst_index.0 < f.code@.len() {
                Some(f)
            } else {
                None
            },
            FunctionView::Host(_) => None,
        },
        None => None,
    }
}

/// The number of open scopes after an instruction that is met with `depth`
/// of them open.
pub open spec fn depth_after(inst: Instruction, depth: nat) -> int {
    if inst is End {
        depth - 1
    } else if inst.opens_scope() {
        depth as int + 1
    } else {
        depth as int
    }
}

/// Where a scan lands that starts at `from` inside `depth` open scopes and
/// looks for the `End` that closes the outermost of them: on that `End`.
/// `None` where the code ends before.
pub open spec fn scan_end(code: Seq<Instruction>, from: int, depth: nat) -> Option<int>
    decreases code.len() - from,
{
    if from < 0 || from >= code.len() {
        None
    } else {
        let d = depth_after(code[from], depth);
        if d <= 0 {
            Some(from)
        } else {
            scan_end(code, from + 1, d as nat)
        }
    }
}

/// Where a scan lands that skips the first branch of an `If`: just past the
/// `Else` of that `If`, or on its `End` where it has no `Else`.
pub open spec fn scan_else(code: Seq<Instruction>, from: int, depth: nat) -> Option<int>
    decreases code.len() - from,
{
    if from < 0 || from >= code.len() {
        None
    } else if code[from] is Else && depth == 1 {
        Some(from + 1)
    } else {
        let d = depth_after(code[from], depth);
        if d <= 0 {
            Some(from)
        } else {
            scan_else(code, from + 1, d as nat)
        }
    }
}

/// The result of a binary operation. Sums, differences and products wrap
/// round in two's complement; a comparison gives 1 or 0.
pub open spec fn int_op_result(op: IntOp, lhs: i32, rhs: i32) -> Value {
    match op {
        IntOp::Add => Value::I32(wrap_i32(lhs + rhs)),
        IntOp::Sub => Value::I32(wrap_i32(lhs - rhs)),
        IntOp::Mul => Value::I32(wrap_i32(lhs * rhs)),
        IntOp::Eq => Value::I32(
            if lhs == rhs {
                1
            } else {
                0
            },
        ),
        IntOp::LtS => Value::I32(
            if lhs < rhs {
                1
            } else {
                0
            },
        ),
    }
}

/// The stack after a binary operation: the right operand is taken from the
/// top, the left one from under it, and the result is pushed.
pub open spec fn after_int_op(s: Seq<Entry>, op: IntOp) -> Result<Seq<Entry>, Trap> {
    if top_values(s) < 2 {
        Err(Trap::InvalidStackState)
    } else {
        match (s[s.len() - 2], s[s.len() - 1]) {
            (Entry::Value(Value::I32(lhs)), Entry::Value(Value::I32(rhs))) => Ok(
                s.take(s.len() - 2).push(Entry::Value(int_op_result(op, lhs, rhs))),
            ),
            _ => Err(Trap::TypeMismatch),
        }
    }
}

/// The condition that an `If` or a `BrIf` takes from the top of the stack.
pub open spec fn condition(s: Seq<Entry>) -> Result<i32, Trap> {
    if s.len() > 0 && s.last() is Value {
        match s.last()->Value_0 {
            Value::I32(c) => Ok(c),
            _ => Err(Trap::TypeMismatch),
        }
    } else {
        Err(Trap::InvalidStackState)
    }
}

/// The effect of a branch out of `depth` scopes, the counter being at
/// `pc`: the labels of those scopes go, with the values above each; then a
/// loop is entered again at its first instruction, and a block or an `If`
/// is left by moving to its `End`. The label of the call frame is no
/// target.
pub open spec fn branched(
    s: Seq<Entry>,
    code: Seq<Instruction>,
    pc: ProgramCounter,
    depth: nat,
) -> Moved {
    match unwound_len(s, depth) {
        None => Err(Trap::InvalidStackState),
        Some(len) => match innermost_label(s.take(len)) {
            Some(Label::Loop(start)) => Ok(
                (s.take(len), ProgramCounter { func_addr: pc.func_addr, inst_index: start }),
            ),
            Some(Label::Block) | Some(Label::If) => match scan_end(
                code,
                pc.inst_index.0 as int,
                depth + 1,
            ) {
                Some(i) => Ok(
                    (
                        s.take(len),
                        ProgramCounter { func_addr: pc.func_addr, inst_index: InstIndex(i as usize) },
                    ),
                ),
                None => Err(Trap::InvariantViolation),
            },
            _ => Err(Trap::InvalidStackState),
        },
    }
}

/// The effect of an `If`, the counter being at `pc`: the condition goes, an
/// `If` label comes, and where the condition is zero the first branch is
/// skipped.
pub open spec fn entered_if(s: Seq<Entry>, code: Seq<Instruction>, pc: ProgramCounter) -> Moved {
    match condition(s) {
        Err(t) => Err(t),
        Ok(c) => {
            let stack = s.drop_last().push(Entry::Label(Label::If));
            if c != 0 {
                Ok((stack, pc))
            } else {
                match scan_else(code, pc.inst_index.0 as int, 1) {
                    Some(i) => Ok(
                        (
                            stack,
                            ProgramCounter {
                                func_addr: pc.func_addr,
                                inst_index: InstIndex(i as usize),
                            },
                        ),
                    ),
                    None => Err(Trap::InvariantViolation),
                }
            }
        },
    }
}

/// The effect of a `BrIf`: the condition goes, and where it is not zero the
/// branch is taken.
pub open spec fn branched_if(
    s: Seq<Entry>,
    code: Seq<Instruction>,
    pc: ProgramCounter,
    depth: nat,
) -> Moved {
    match condition(s) {
        Err(t) => Err(t),
        Ok(c) => if c != 0 {
            branched(s.drop_last(), code, pc, depth)
        } else {
            Ok((s.drop_last(), pc))
        },
    }
}

/// The effect of a call of the function that `addr` names, the counter
/// being at `pc`. The arguments are the values on top, as many as the
/// function has parameters, the first one lowest. A defined function gets a
/// frame, which returns to `pc`, and on it the label of the frame; the
/// counter moves to its first instruction. A host function is called at
/// once and its results are pushed: `host` is what it answered.
pub open spec fn called(
    env: Env,
    s: Seq<Entry>,
    pc: ProgramCounter,
    addr: FuncAddr,
    host: HostResult,
) -> Moved {
    match env.funcs.resolve(addr.0, addr.1) {
        None => Err(Trap::InvariantViolation),
        Some(handle) => {
            let callee = env.funcs.items[handle as int];
            let n = callee.ty().params.len();
            if top_values(s) < n {
                Err(Trap::InvalidStackState)
            } else {
                let args = values_on_top(s, n);
                let base = s.take(s.len() - n);
                match callee {
                    FunctionView::Defined(f) => Ok(
                        (
                            base.push(
                                Entry::Activation(
                                    FrameView {
                                        func_addr: addr,
                                        locals: initial_locals(args, f.locals@),
                                        ret_pc: Some(pc),
                                    },
                                ),
                            ).push(Entry::Label(Label::Return)),
                            ProgramCounter { func_addr: addr, inst_index: InstIndex(0) },
                        ),
                    ),
                    FunctionView::Host(f) => match host_settled(s, f.ty, host) {
                        Ok(stack) => Ok((stack, pc)),
                        Err(trap) => Err(trap),
                    },
                }
            }
        },
    }
}

/// The parts of the machine that an instruction may change besides the
/// counter: the stack, and the function of the call that completed last.
pub struct Before {
    pub stack: Seq<Entry>,
    pub last_ret: Option<FuncAddr>,
}

/// A step that trapped with the counter at `pc`: nothing else changed.
pub open spec fn trapped(env: Env, m: Before, pc: ProgramCounter, trap: Trap) -> Outcome {
    Outcome {
        pc,
        stack: m.stack,
        last_ret: m.last_ret,
        globals: env.globals.items,
        result: Err(trap),
    }
}

/// A step that changed the stack and the counter, or trapped.
pub open spec fn moved(env: Env, m: Before, pc: ProgramCounter, to: Moved) -> Outcome {
    match to {
        Ok((stack, next)) => Outcome {
            pc: next,
            stack,
            last_ret: m.last_ret,
            globals: env.globals.items,
            result: Ok(ExecSuccess::Next),
        },
        Err(trap) => trapped(env, m, pc, trap),
    }
}

/// A step that changed the stack only, or trapped.
pub open spec fn changed(
    env: Env,
    m: Before,
    pc: ProgramCounter,
    to: Result<Seq<Entry>, Trap>,
) -> Outcome {
    match to {
        Ok(stack) => moved(env, m, pc, Ok((stack, pc))),
        Err(trap) => trapped(env, m, pc, trap),
    }
}

/// What the end of the current call leaves behind, the counter being at
/// `pc`: the results, as many as the function declares, are taken from the
/// top; the activation goes with all that lies above it; the results are
/// pushed; and the run goes on where the frame returns to. The end of the
/// entry frame ends the run.
pub open spec fn returned(env: Env, m: Before, pc: ProgramCounter) -> Outcome {
    match current_frame(m.stack) {
        None => trapped(env, m, pc, Trap::InvalidStackState),
        Some(frame) => match env.funcs.resolve(frame.func_addr.0, frame.func_addr.1) {
            None => trapped(env, m, pc, Trap::InvariantViolation),
            Some(handle) => {
                let arity = env.funcs.items[handle as int].ty().result_arity();
                if top_values(m.stack) < arity {
                    trapped(env, m, pc, Trap::InvalidStackState)
                } else {
                    Outcome {
                        pc: match frame.ret_pc {
                            Some(ret) => ret,
                            None => pc,
                        },
                        stack: m.stack.take(frame_base(m.stack)) + m.stack.skip(
                            m.stack.len() - arity,
                        ),
                        last_ret: Some(frame.func_addr),
                        globals: env.globals.items,
                        result: Ok(
                            if frame.ret_pc is Some {
                                ExecSuccess::Next
                            } else {
                                ExecSuccess::End
                            },
                        ),
                    }
                }
            },
        },
    }
}

/// The effect of `GetLocal`.
pub open spec fn got_local(s: Seq<Entry>, index: u32) -> Result<Seq<Entry>, Trap> {
    match current_frame(s) {
        Some(frame) => if index < frame.locals.len() {
            Ok(s.push(Entry::Value(frame.locals[index as int])))
        } else {
            Err(Trap::InvalidStackState)
        },
        None => Err(Trap::InvalidStackState),
    }
}

/// The effect of `SetLocal`: the value on top goes into the local.
pub open spec fn set_local(s: Seq<Entry>, index: u32) -> Result<Seq<Entry>, Trap> {
    if s.len() > 0 && s.last() is Value {
        let rest = s.drop_last();
        match current_frame(rest) {
            Some(frame) => if index < frame.locals.len() {
                Ok(
                    rest.update(
                        frame_base(rest),
                        Entry::Activation(
                            FrameView {
                                locals: frame.locals.update(index as int, s.last()->Value_0),
                                ..frame
                            },
                        ),
                    ),
                )
            } else {
                Err(Trap::InvalidStackState)
            },
            None => Err(Trap::InvalidStackState),
        }
    } else {
        Err(Trap::InvalidStackState)
    }
}

/// The effect of `GetGlobal` in a function of `module`.
pub open spec fn got_global(env: Env, s: Seq<Entry>, module: ModuleIndex, index: u32) -> Result<
    Seq<Entry>,
    Trap,
> {
    match env.globals.resolve(module, index as usize) {
        Some(handle) => Ok(s.push(Entry::Value(env.globals.items[handle as int].value))),
        None => Err(Trap::InvariantViolation),
    }
}

/// The effect of `SetGlobal` in a function of `module`, the counter being
/// at `pc`: the value on top goes into the global, if the global may
/// change.
pub open spec fn set_global(
    env: Env,
    m: Before,
    pc: ProgramCounter,
    module: ModuleIndex,
    index: u32,
) -> Outcome {
    if m.stack.len() > 0 && m.stack.last() is Value {
        match env.globals.resolve(module, index as usize) {
            Some(handle) => {
                let global = env.globals.items[handle as int];
                if global.ty.mutable {
                    Outcome {
                        pc,
                        stack: m.stack.drop_last(),
                        last_ret: m.last_ret,
                        globals: env.globals.items.update(
                            handle as int,
                            GlobalInstance { value: m.stack.last()->Value_0, ty: global.ty },
                        ),
                        result: Ok(ExecSuccess::Next),
                    }
                } else {
                    trapped(env, m, pc, Trap::InvariantViolation)
                }
            },
            None => trapped(env, m, pc, Trap::InvariantViolation),
        }
    } else {
        trapped(env, m, pc, Trap::InvalidStackState)
    }
}

/// The effect of an `End`, the counter being at `pc`. Inside a block, a loop
/// or an `If` it closes that scope: the label goes and the values above it
/// stay, in their order. With no such scope open it ends the call.
pub open spec fn ended(env: Env, m: Before, pc: ProgramCounter) -> Outcome {
    match innermost_label(m.stack) {
        Some(Label::Block) | Some(Label::If) | Some(Label::Loop(_)) => changed(
            env,
            m,
            pc,
            Ok(m.stack.remove(under_values(m.stack))),
        ),
        _ => returned(env, m, pc),
    }
}

/// The effect of an instruction that neither reads the store nor moves the
/// counter.
pub open spec fn plain(s: Seq<Entry>, pc: ProgramCounter, inst: Instruction) -> Result<
    Seq<Entry>,
    Trap,
> {
    match inst {
        Instruction::Unreachable => Err(Trap::Unreachable),
        Instruction::Other(name) => Err(Trap::UnsupportedInstruction(name@)),
        Instruction::I32Const(v) => Ok(s.push(Entry::Value(Value::I32(v)))),
        Instruction::I64Const(v) => Ok(s.push(Entry::Value(Value::I64(v)))),
        Instruction::F32Const(v) => Ok(s.push(Entry::Value(Value::F32(v)))),
        Instruction::F64Const(v) => Ok(s.push(Entry::Value(Value::F64(v)))),
        Instruction::Block(_) => Ok(s.push(Entry::Label(Label::Block))),
        Instruction::Loop(_) => Ok(s.push(Entry::Label(Label::Loop(pc.inst_index)))),
        Instruction::GetLocal(i) => got_local(s, i),
        Instruction::SetLocal(i) => set_local(s, i),
        Instruction::I32Add => after_int_op(s, IntOp::Add),
        Instruction::I32Sub => after_int_op(s, IntOp::Sub),
        Instruction::I32Mul => after_int_op(s, IntOp::Mul),
        Instruction::I32Eq => after_int_op(s, IntOp::Eq),
        Instruction::I32LtS => after_int_op(s, IntOp::LtS),
        _ => Ok(s),
    }
}

/// The effect of an instruction that moves the counter inside the body
/// `code`.
pub open spec fn control(
    s: Seq<Entry>,
    code: Seq<Instruction>,
    pc: ProgramCounter,
    inst: Instruction,
) -> Moved {
    match inst {
        Instruction::If(_) => entered_if(s, code, pc),
        Instruction::Else => branched(s, code, pc, 0),
        Instruction::Br(depth) => branched(s, code, pc, depth as nat),
        Instruction::BrIf(depth) => branched_if(s, code, pc, depth as nat),
        _ => Ok((s, pc)),
    }
}

/// Whether an instruction moves the counter inside the body.
pub open spec fn is_control(inst: Instruction) -> bool {
    inst is If || inst is Else || inst is Br || inst is BrIf
}

/// The effect of the instruction `inst` of a function of `module` with the
/// body `code`, the counter being at `pc`, past the instruction.
#[verifier::opaque]
pub open spec fn executed(
    env: Env,
    m: Before,
    pc: ProgramCounter,
    module: ModuleIndex,
    code: Seq<Instruction>,
    inst: Instruction,
    host: HostResult,
) -> Outcome {
    match inst {
        Instruction::GetGlobal(i) => changed(env, m, pc, got_global(env, m.stack, module, i)),
        Instruction::SetGlobal(i) => set_global(env, m, pc, module, i),
        Instruction::Call(i) => moved(
            env,
            m,
            pc,
            called(env, m.stack, pc, FuncAddr(module, i as usize), host),
        ),
        Instruction::Return => returned(env, m, pc),
        Instruction::End => ended(env, m, pc),
        _ => if is_control(inst) {
            moved(env, m, pc, control(m.stack, code, pc, inst))
        } else {
            changed(env, m, pc, plain(m.stack, pc, inst))
        },
    }
}

/// The outcome of an instruction, seen from outside: an instruction that
/// leaves the entry frame without a label ends the run.
pub open spec fn finished(done: Outcome) -> Outcome {
    if done.result == Ok::<ExecSuccess, Trap>(ExecSuccess::Next) && over_top_level(done.stack) {
        Outcome { result: Ok(ExecSuccess::End), ..done }
    } else {
        done
    }
}

/// One step of the machine. `host` is what the host function answers, if
/// the step calls one. A step that finds no instruction at the counter
/// traps and changes nothing. A step that leaves the entry frame without a
/// label ends the run.
pub open spec fn step(env: Env, m: MachineView, host: HostResult) -> Outcome {
    let before = Before { stack: m.stack, last_ret: m.last_ret };
    match fetched(env, m.pc) {
        None => trapped(env, before, m.pc, Trap::InvariantViolation),
        Some(f) => {
            finished(
                executed(
                    env,
                    before,
                    advanced(m.pc),
                    f.module_index,
                    f.code@,
                    f.code@[m.pc.inst_index.0 as int],
                    host,
                ),
            )
        },
    }
}


/// The machine and what it reads of the store, between two steps.
pub struct RunState {
    pub env: Env,
    pub machine: MachineView,
}

/// The state that a step leaves behind.
pub open spec fn state_of(env: Env, o: Outcome) -> RunState {
    RunState {
        env: env.with_globals(o.globals),
        machine: MachineView { pc: o.pc, stack: o.stack, last_ret: o.last_ret },
    }
}

/// The state after as many steps as `hosts` is long, each of which has a
/// next one; in step `k` the host function, if one is called, answers
/// `hosts[k]`. `None` where one of the steps traps or ends the run.
pub open spec fn state_after(start: RunState, hosts: Seq<HostResult>) -> Option<RunState>
    decreases hosts.len(),
{
    if hosts.len() == 0 {
        Some(start)
    } else {
        match state_after(start, hosts.drop_last()) {
            Some(s) => {
                let o = step(s.env, s.machine, hosts.last());
                if o.result == Ok::<ExecSuccess, Trap>(ExecSuccess::Next) {
                    Some(state_of(s.env, o))
                } else {
                    None
                }
            },
            None => None,
        }
    }
}

/// Whether a run from `start` stops in its step number `hosts.len()`, which
/// leaves `end` behind: all steps before have a next one, and this one
/// traps or ends the run.
pub open spec fn stops_with(start: RunState, hosts: Seq<HostResult>, end: Outcome) -> bool {
    &&& hosts.len() > 0
    &&& state_after(start, hosts.drop_last()) matches Some(s)
    &&& end == step(s.env, s.machine, hosts.last())
    &&& end.result != Ok::<ExecSuccess, Trap>(ExecSuccess::Next)
}

/// The machine at the start of a run of a function: on the stack its
/// frame, which returns nowhere, and the label of the frame; the counter at
/// its first instruction.
pub open spec fn entry_machine(addr: FuncAddr, locals: Seq<Value>) -> MachineView {
    MachineView {
        pc: ProgramCounter { func_addr: addr, inst_index: InstIndex(0) },
        stack: seq![
            Entry::Activation(FrameView { func_addr: addr, locals, ret_pc: None }),
            Entry::Label(Label::Return),
        ],
        last_ret: None,
    }
}

/// Whether `r`, with the globals left as `globals`, is what a run of the
/// function at `addr` with `args` gives within `fuel` steps, the host
/// functions answering `hosts`.
///
/// A function that the store does not have gives a trap. A host function is
/// called once. A defined function runs from `entry_machine` on until a
/// step ends the run, which gives the values then on the stack, or traps,
/// which gives the trap; where `fuel` steps do neither, the run is given
/// up.
pub open spec fn invoked(
    env: Env,
    addr: FuncAddr,
    args: Seq<Value>,
    hosts: Seq<HostResult>,
    fuel: u64,
    globals: Seq<GlobalInstance>,
    r: Result<Vec<Value>, ExecError>,
) -> bool {
    match env.funcs.resolve(addr.0, addr.1) {
        None => r is Err && r->Err_0@ == Trap::InvariantViolation && globals == env.globals.items,
        Some(handle) => match env.funcs.items[handle as int] {
            FunctionView::Host(_) => {
                &&& hosts.len() == 1
                &&& globals == env.globals.items
                &&& match called(
                    env,
                    as_entries(args),
                    ProgramCounter { func_addr: addr, inst_index: InstIndex(0) },
                    addr,
                    hosts[0],
                ) {
                    Ok((stack, _)) => r is Ok && r->Ok_0@ == crate::stack::values_of(stack),
                    Err(trap) => r is Err && r->Err_0@ == trap,
                }
            },
            FunctionView::Defined(f) => {
                let start = RunState {
                    env,
                    machine: entry_machine(addr, initial_locals(args, f.locals@)),
                };
                &&& hosts.len() <= fuel
                &&& match state_after(start, hosts) {
                    Some(s) => {
                        &&& hosts.len() == fuel
                        &&& r is Err
                        &&& r->Err_0@ == Trap::StepLimitExceeded
                        &&& globals == s.env.globals.items
                    },
                    None => {
                        &&& hosts.len() > 0
                        &&& state_after(start, hosts.drop_last()) matches Some(s)
                        &&& {
                            let end = step(s.env, s.machine, hosts.last());
                            &&& globals == end.globals
                            &&& match end.result {
                                Ok(_) => r is Ok && r->Ok_0@ == crate::stack::values_of(end.stack),
                                Err(trap) => r is Err && r->Err_0@ == trap,
                            }
                        }
                    },
                }
            },
        },
    }
}

/// What `peek_result` tells of a machine: the results of the call that
/// completed last, held against the type of its function.
pub open spec fn peeked(env: Env, m: MachineView) -> Result<Seq<Value>, ReturnValError> {
    match m.last_ret {
        None => Err(ReturnValError::NoCallFrame),
        Some(addr) => match env.funcs.resolve(addr.0, addr.1) {
            None => Err(ReturnValError::NoCallFrame),
            Some(handle) => match env.funcs.items[handle as int].ty().result {
                None => Ok(Seq::empty()),
                Some(ty) => if m.stack.len() > 0 && m.stack.last() is Value {
                    let v = m.stack.last()->Value_0;
                    if v.spec_value_type() == ty {
                        Ok(seq![v])
                    } else {
                        Err(ReturnValError::TypeMismatchReturnValue(v, ty))
                    }
                } else {
                    Err(ReturnValError::NoValue(ty))
                },
            },
        },
    }
}

/// Whether what a step left behind is the outcome `o`.
pub open spec fn reached(
    o: Outcome,
    globals: Seq<GlobalInstance>,
    pc: ProgramCounter,
    stack: Seq<Entry>,
    last_ret: Option<FuncAddr>,
    r: ExecResult,
) -> bool {
    &&& pc == o.pc
    &&& stack == o.stack
    &&& last_ret == o.last_ret
    &&& globals == o.globals
    &&& match (r, o.result) {
        (Ok(a), Ok(b)) => a == b,
        (Err(e), Err(t)) => e@ == t,
        _ => false,
    }
}

/// Scans forward for the `End` that closes the outermost of `depth` open
/// scopes.
fn scan_to_end(code: &Vec<Instruction>, from: usize, depth: u64) -> (r: Option<usize>)
    requires
        depth <= 0x1_0000_0000,
    ensures
        match r {
            Some(i) => scan_end(code@, from as int, depth as nat) == Some(i as int),
            None => scan_end(code@, from as int, depth as nat) is None,
        },
{
    let mut i = from;
    let mut open: u128 = depth as u128;
    while i < code.len()
        invariant
            from <= i,
            open <= depth + (i - from),
            scan_end(code@, from as int, depth as nat) == scan_end(code@, i as int, open as nat),
        decreases code@.len() - i,
    {
        match code[i] {
            Instruction::End => {
                if open <= 1 {
                    return Some(i);
                }
                open -= 1;
            },
            Instruction::Block(_) | Instruction::Loop(_) | Instruction::If(_) => {
                open += 1;
            },
            _ => {
                if open == 0 {
                    return Some(i);
                }
            },
        }
        i += 1;
    }
    None
}

/// Scans forward past the first branch of an `If`.
fn scan_to_else(code: &Vec<Instruction>, from: usize) -> (r: Option<usize>)
    ensures
        match r {
            Some(i) => scan_else(code@, from as int, 1) == Some(i as int),
            None => scan_else(code@, from as int, 1) is None,
        },
{
    let mut i = from;
    let mut open: u128 = 1;
    while i < code.len()
        invariant
            from <= i,
            1 <= open <= 1 + (i - from),
            scan_else(code@, from as int, 1) == scan_else(code@, i as int, open as nat),
        decreases code@.len() - i,
    {
        match code[i] {
            Instruction::Else => {
                if open == 1 {
                    return Some(i + 1);
                }
            },
            Instruction::End => {
                if open == 1 {
                    return Some(i);
                }
                open -= 1;
            },
            Instruction::Block(_) | Instruction::Loop(_) | Instruction::If(_) => {
                open += 1;
            },
            _ => {},
        }
        i += 1;
    }
    None
}

/// Computes a binary operation.
fn compute(op: IntOp, lhs: i32, rhs: i32) -> (v: Value)
    ensures
        v == int_op_result(op, lhs, rhs),
{
    match op {
        IntOp::Add => Value::I32(lhs.wrapping_add(rhs)),
        IntOp::Sub => Value::I32(lhs.wrapping_sub(rhs)),
        IntOp::Mul => Value::I32(lhs.wrapping_mul(rhs)),
        IntOp::Eq => Value::I32(
            if lhs == rhs {
                1
            } else {
                0
            },
        ),
        IntOp::LtS => Value::I32(
            if lhs < rhs {
                1
            } else {
                0
            },
        ),
    }
}

/// Takes the 32-bit integer on top of the stack.
pub fn pop_as(stack: &mut Stack) -> (r: Result<i32, ExecError>)
    ensures
        match condition(old(stack)@) {
            Ok(c) => r == Ok::<i32, ExecError>(c) && final(stack)@ == old(stack)@.drop_last(),
            Err(t) => r is Err && r->Err_0@ == t && final(stack)@ == old(stack)@,
        },
{
    match stack.peek_last_value() {
        Some(Value::I32(c)) => {
            stack.pop_value();
            Ok(c)
        },
        Some(_) => Err(ExecError::TypeMismatch),
        None => Err(ExecError::InvalidStackState),
    }
}

/// Executes a binary operation on the two values on top of the stack.
pub fn int_op(stack: &mut Stack, op: IntOp) -> (r: Result<(), ExecError>)
    ensures
        match after_int_op(old(stack)@, op) {
            Ok(s) => r is Ok && final(stack)@ == s,
            Err(t) => r is Err && r->Err_0@ == t && final(stack)@ == old(stack)@,
        },
{
    if stack.top_values() < 2 {
        return Err(ExecError::InvalidStackState);
    }
    proof {
        lemma_top_values_bound(stack@);
    }
    let operands = stack.peek_values(2);
    match (operands[0], operands[1]) {
        (Value::I32(lhs), Value::I32(rhs)) => {
            let n = stack.len();
            stack.truncate(n - 2);
            stack.push_value(compute(op, lhs, rhs));
            Ok(())
        },
        _ => Err(ExecError::TypeMismatch),
    }
}

/// Branches out of `depth` scopes.
pub fn branch(stack: &mut Stack, code: &Vec<Instruction>, pc: &mut ProgramCounter, depth: u32) -> (r:
    Result<(), ExecError>)
    ensures
        match branched(old(stack)@, code@, *old(pc), depth as nat) {
            Ok((s, next)) => r is Ok && final(stack)@ == s && *final(pc) == next,
            Err(t) => r is Err && r->Err_0@ == t && final(stack)@ == old(stack)@ && *final(pc)
                == *old(pc),
        },
{
    let len = match stack.unwound_len(depth as usize) {
        Some(len) => len,
        None => {
            return Err(ExecError::InvalidStackState);
        },
    };
    match stack.innermost_label_below(len) {
        Some(Label::Loop(start)) => {
            stack.truncate(len);
            pc.loop_jump(start);
            Ok(())
        },
        Some(Label::Block) | Some(Label::If) => {
            match scan_to_end(code, pc.inst_index.0, depth as u64 + 1) {
                Some(i) => {
                    stack.truncate(len);
                    pc.loop_jump(InstIndex(i));
                    Ok(())
                },
                None => Err(ExecError::InvariantViolation),
            }
        },
        _ => Err(ExecError::InvalidStackState),
    }
}

/// What a host function answered, as plain values.
pub open spec fn host_result(answer: Result<Vec<Value>, String>) -> HostResult {
    match answer {
        Ok(results) => Ok(results@),
        Err(msg) => Err(msg@),
    }
}

/// The stack after a call of a host function of the type `ty` that
/// answered `host`: the arguments, as many values as the function has
/// parameters, are replaced by the results. An answer that is a message,
/// or that the type does not allow, is a trap.
pub open spec fn host_settled(s: Seq<Entry>, ty: FuncTypeView, host: HostResult) -> Result<
    Seq<Entry>,
    Trap,
> {
    match host {
        Err(msg) => Err(Trap::HostCallError(msg)),
        Ok(results) => if !ty.accepts_results(results) {
            Err(Trap::HostCallError(host_mismatch_message()))
        } else if s.len() < ty.params.len() {
            Err(Trap::InvalidStackState)
        } else {
            Ok(s.take(s.len() - ty.params.len()) + as_entries(results))
        },
    }
}

/// Ends the call of a host function of the type `ty` with what the
/// function answered: takes its arguments from the stack and pushes its
/// results, or traps and leaves the stack as it is.
pub fn settle_host_call(stack: &mut Stack, ty: &FuncType, answer: Result<Vec<Value>, String>) -> (r:
    Result<(), ExecError>)
    ensures
        match host_settled(old(stack)@, ty@, host_result(answer)) {
            Ok(s) => r is Ok && final(stack)@ == s,
            Err(t) => r is Err && r->Err_0@ == t && final(stack)@ == old(stack)@,
        },
{
    match answer {
        Err(msg) => Err(ExecError::HostCallError(msg)),
        Ok(results) => {
            if !ty.accepts_results(&results) {
                Err(
                    ExecError::HostCallError(
                        String::from_str("host function returned values that do not match its type"),
                    ),
                )
            } else if stack.len() < ty.params().len() {
                Err(ExecError::InvalidStackState)
            } else {
                let base = stack.len() - ty.params().len();
                stack.truncate(base);
                stack.push_values(&results);
                Ok(())
            }
        },
    }
}

/// Whether a call that was to have the effect `to` has left the stack and
/// the counter as they are now, and `r` as its result; a call that traps
/// leaves both as they were before.
pub open spec fn was_called(
    to: Moved,
    stack: Seq<Entry>,
    pc: ProgramCounter,
    stack_before: Seq<Entry>,
    pc_before: ProgramCounter,
    r: Result<(), ExecError>,
) -> bool {
    match to {
        Ok((s, next)) => r is Ok && stack == s && pc == next,
        Err(t) => r is Err && r->Err_0@ == t && stack == stack_before && pc == pc_before,
    }
}

/// Calls the function that `addr` names. What a host function answers
/// decides the outcome of its call.
pub fn invoke<C>(store: &Store<C>, stack: &mut Stack, pc: &mut ProgramCounter, addr: FuncAddr) -> (r:
    Result<(), ExecError>)
    requires
        store.wf(),
    ensures
        exists|host: HostResult|
            was_called(
                #[trigger] called(store.env(), old(stack)@, *old(pc), addr, host),
                final(stack)@,
                *final(pc),
                old(stack)@,
                *old(pc),
                r,
            ),
{
    let ghost silent: HostResult = Err(Seq::empty());
    let func = match store.func(addr) {
        Some((func, _)) => func,
        None => {
            assert(was_called(
                called(store.env(), old(stack)@, *old(pc), addr, silent),
                stack@,
                *pc,
                old(stack)@,
                *old(pc),
                Err(ExecError::InvariantViolation),
            ));
            return Err(ExecError::InvariantViolation);
        },
    };
    let n = func.ty().params().len();
    if stack.top_values() < n {
        assert(was_called(
            called(store.env(), old(stack)@, *old(pc), addr, silent),
            stack@,
            *pc,
            old(stack)@,
            *old(pc),
            Err(ExecError::InvalidStackState),
        ));
        return Err(ExecError::InvalidStackState);
    }
    proof {
        lemma_top_values_bound(stack@);
    }
    let args = stack.peek_values(n);
    let base = stack.len() - n;
    match func {
        FunctionInstance::Defined(defined) => {
            let frame = CallFrame::new_from_func(addr, defined, args, Some(*pc));
            stack.truncate(base);
            stack.set_frame(frame);
            stack.push_label(Label::Return);
            *pc = ProgramCounter::new(addr, InstIndex::zero());
            assert(was_called(
                called(store.env(), old(stack)@, *old(pc), addr, silent),
                stack@,
                *pc,
                old(stack)@,
                *old(pc),
                Ok(()),
            ));
            Ok(())
        },
        FunctionInstance::Host(host) => {
            let answer = host.code.call(&args, store.embed_contexts());
            let ghost answered = host_result(answer);
            let r = settle_host_call(stack, &host.ty, answer);
            assert(was_called(
                called(store.env(), old(stack)@, *old(pc), addr, answered),
                stack@,
                *pc,
                old(stack)@,
                *old(pc),
                r,
            ));
            r
        },
    }
}

/// Ends the current call.
fn finish_call<C>(
    store: &Store<C>,
    stack: &mut Stack,
    pc: &mut ProgramCounter,
    last_ret: &mut Option<FuncAddr>,
) -> (r: ExecResult)
    requires
        store.wf(),
    ensures
        reached(
            returned(store.env(), Before { stack: old(stack)@, last_ret: *old(last_ret) }, *old(pc)),
            store.globals().items,
            *final(pc),
            final(stack)@,
            *final(last_ret),
            r,
        ),
{
    let (addr, ret_pc) = match stack.current_frame() {
        Some(frame) => (frame.func_addr, frame.ret_pc),
        None => {
            return Err(ExecError::InvalidStackState);
        },
    };
    let arity: usize = match store.func(addr) {
        Some((func, _)) => if func.ty().return_type().is_some() {
            1
        } else {
            0
        },
        None => {
            return Err(ExecError::InvariantViolation);
        },
    };
    if !stack.return_frame(arity) {
        return Err(ExecError::InvalidStackState);
    }
    *last_ret = Some(addr);
    match ret_pc {
        Some(ret) => {
            *pc = ret;
            Ok(ExecSuccess::Next)
        },
        None => Ok(ExecSuccess::End),
    }
}

/// The module and a copy of the instruction that the counter points at.
fn fetch<C>(store: &Store<C>, pc: ProgramCounter) -> (r: Option<(ModuleIndex, Instruction)>)
    requires
        store.wf(),
    ensures
        match fetched(store.env(), pc) {
            Some(f) => r == Some((f.module_index, f.code@[pc.inst_index.0 as int]))
                && pc.inst_index.0 < usize::MAX,
            None => r is None,
        },
{
    match store.func(pc.func_addr) {
        Some((FunctionInstance::Defined(f), _)) => match f.inst(pc.inst_index.0) {
            Some(inst) => {
                assert(pc.inst_index.0 < f.code.len());
                Some((f.module_index, inst.duplicate()))
            },
            None => None,
        },
        _ => None,
    }
}

/// The body that the counter points into.
fn body<'a, C>(store: &'a Store<C>, pc: ProgramCounter) -> (r: Option<&'a Vec<Instruction>>)
    requires
        store.wf(),
    ensures
        match fetched(store.env(), pc) {
            Some(f) => r is Some && r->Some_0@ == f.code@,
            None => r is None,
        },
{
    match store.func(pc.func_addr) {
        Some((FunctionInstance::Defined(f), _)) => if pc.inst_index.0 < f.code.len() {
            Some(&f.code)
        } else {
            None
        },
        _ => None,
    }
}

/// Executes an instruction that neither reads the store nor moves the
/// counter, which stands at `pc`.
fn execute_plain(stack: &mut Stack, pc: ProgramCounter, inst: &Instruction) -> (r: Result<
    (),
    ExecError,
>)
    ensures
        match plain(old(stack)@, pc, *inst) {
            Ok(s) => r is Ok && final(stack)@ == s,
            Err(t) => r is Err && r->Err_0@ == t && final(stack)@ == old(stack)@,
        },
{
    match inst {
        Instruction::Unreachable => Err(ExecError::Unreachable),
        Instruction::Other(name) => Err(ExecError::UnsupportedInstruction(name.clone())),
        Instruction::I32Const(v) => {
            stack.push_value(Value::I32(*v));
            Ok(())
        },
        Instruction::I64Const(v) => {
            stack.push_value(Value::I64(*v));
            Ok(())
        },
        Instruction::F32Const(v) => {
            stack.push_value(Value::F32(*v));
            Ok(())
        },
        Instruction::F64Const(v) => {
            stack.push_value(Value::F64(*v));
            Ok(())
        },
        Instruction::Block(_) => {
            stack.push_label(Label::Block);
            Ok(())
        },
        Instruction::Loop(_) => {
            stack.push_label(Label::new_loop(pc.inst_index()));
            Ok(())
        },
        Instruction::GetLocal(i) => match stack.local(*i as usize) {
            Some(v) => {
                stack.push_value(v);
                Ok(())
            },
            None => Err(ExecError::InvalidStackState),
        },
        Instruction::SetLocal(i) => match stack.pop_value() {
            Some(v) => {
                if stack.set_local(*i as usize, v) {
                    Ok(())
                } else {
                    stack.push_value(v);
                    assert(stack@ =~= old(stack)@);
                    Err(ExecError::InvalidStackState)
                }
            },
            None => Err(ExecError::InvalidStackState),
        },
        Instruction::I32Add => int_op(stack, IntOp::Add),
        Instruction::I32Sub => int_op(stack, IntOp::Sub),
        Instruction::I32Mul => int_op(stack, IntOp::Mul),
        Instruction::I32Eq => int_op(stack, IntOp::Eq),
        Instruction::I32LtS => int_op(stack, IntOp::LtS),
        _ => Ok(()),
    }
}

/// Executes an `If`.
fn enter_if(stack: &mut Stack, code: &Vec<Instruction>, pc: &mut ProgramCounter) -> (r: Result<
    (),
    ExecError,
>)
    ensures
        match entered_if(old(stack)@, code@, *old(pc)) {
            Ok((s, next)) => r is Ok && final(stack)@ == s && *final(pc) == next,
            Err(t) => r is Err && r->Err_0@ == t && final(stack)@ == old(stack)@ && *final(pc)
                == *old(pc),
        },
{
    let c = match stack.peek_last_value() {
        Some(Value::I32(c)) => c,
        Some(_) => {
            return Err(ExecError::TypeMismatch);
        },
        None => {
            return Err(ExecError::InvalidStackState);
        },
    };
    if c == 0 {
        match scan_to_else(code, pc.inst_index.0) {
            Some(i) => {
                pc.loop_jump(InstIndex(i));
            },
            None => {
                return Err(ExecError::InvariantViolation);
            },
        }
    }
    stack.pop_value();
    stack.push_label(Label::If);
    Ok(())
}

/// Executes a `BrIf`.
fn branch_if(stack: &mut Stack, code: &Vec<Instruction>, pc: &mut ProgramCounter, depth: u32) -> (r:
    Result<(), ExecError>)
    ensures
        match branched_if(old(stack)@, code@, *old(pc), depth as nat) {
            Ok((s, next)) => r is Ok && final(stack)@ == s && *final(pc) == next,
            Err(t) => r is Err && r->Err_0@ == t && final(stack)@ == old(stack)@ && *final(pc)
                == *old(pc),
        },
{
    match stack.peek_last_value() {
        Some(Value::I32(c)) => {
            stack.pop_value();
            if c != 0 {
                match branch(stack, code, pc, depth) {
                    Ok(()) => Ok(()),
                    Err(e) => {
                        stack.push_value(Value::I32(c));
                        assert(stack@ =~= old(stack)@);
                        Err(e)
                    },
                }
            } else {
                Ok(())
            }
        },
        Some(_) => Err(ExecError::TypeMismatch),
        None => Err(ExecError::InvalidStackState),
    }
}

/// Executes an instruction that moves the counter inside the body `code`.
fn execute_control(
    stack: &mut Stack,
    code: &Vec<Instruction>,
    pc: &mut ProgramCounter,
    inst: &Instruction,
) -> (r: Result<(), ExecError>)
    ensures
        match control(old(stack)@, code@, *old(pc), *inst) {
            Ok((s, next)) => r is Ok && final(stack)@ == s && *final(pc) == next,
            Err(t) => r is Err && r->Err_0@ == t && final(stack)@ == old(stack)@ && *final(pc)
                == *old(pc),
        },
{
    match inst {
        Instruction::If(_) => enter_if(stack, code, pc),
        Instruction::Else => branch(stack, code, pc, 0),
        Instruction::Br(depth) => branch(stack, code, pc, *depth),
        Instruction::BrIf(depth) => branch_if(stack, code, pc, *depth),
        _ => Ok(()),
    }
}

/// Executes `inst`, the instruction that the counter points at, which
/// belongs to a function of `module`. What a host function answers, if the
/// instruction calls one, decides the outcome.
pub fn execute_inst<C>(
    store: &mut Store<C>,
    stack: &mut Stack,
    pc: &mut ProgramCounter,
    last_ret: &mut Option<FuncAddr>,
    inst: &Instruction,
    module: ModuleIndex,
) -> (r: ExecResult)
    requires
        old(store).wf(),
        old(pc).inst_index.0 < usize::MAX,
        fetched(old(store).env(), *old(pc)) matches Some(f) && f.module_index == module
            && f.code@[old(
            pc,
        ).inst_index.0 as int] == *inst,
    ensures
        final(store).wf(),
        final(store).same_but_globals(old(store)),
        exists|host: HostResult|
            reached(
                finished(
                    #[trigger] executed(
                        old(store).env(),
                        Before { stack: old(stack)@, last_ret: *old(last_ret) },
                        advanced(*old(pc)),
                        module,
                        fetched(old(store).env(), *old(pc))->Some_0.code@,
                        *inst,
                        host,
                    ),
                ),
                final(store).globals().items,
                *final(pc),
                final(stack)@,
                *final(last_ret),
                r,
            ),
{
    let ghost m = Before { stack: old(stack)@, last_ret: *old(last_ret) };
    let ghost mut host: HostResult = Err(Seq::empty());
    let at = *pc;
    let ghost f = fetched(old(store).env(), at)->Some_0;
    pc.inc_inst_index();
    let ghost pc1 = *pc;
    let result: ExecResult = match inst {
        Instruction::GetGlobal(i) => match store.global(GlobalAddr(module, *i as usize)) {
            Some(global) => {
                stack.push_value(global.value());
                Ok(ExecSuccess::Next)
            },
            None => Err(ExecError::InvariantViolation),
        },
        Instruction::SetGlobal(i) => match stack.peek_last_value() {
            Some(v) => match store.set_global(GlobalAddr(module, *i as usize), v) {
                Ok(()) => {
                    stack.pop_value();
                    Ok(ExecSuccess::Next)
                },
                Err(_) => Err(ExecError::InvariantViolation),
            },
            None => Err(ExecError::InvalidStackState),
        },
        Instruction::Call(i) => {
            let done = invoke(store, stack, pc, FuncAddr(module, *i as usize));
            proof {
                host = choose|host: HostResult|
                    was_called(
                        #[trigger] called(
                            old(store).env(),
                            old(stack)@,
                            pc1,
                            FuncAddr(module, *i as usize),
                            host,
                        ),
                        stack@,
                        *pc,
                        old(stack)@,
                        pc1,
                        done,
                    );
            }
            match done {
                Ok(()) => Ok(ExecSuccess::Next),
                Err(e) => Err(e),
            }
        },
        Instruction::Return => finish_call(store, stack, pc, last_ret),
        Instruction::End => match stack.peek_last_label() {
            Some(Label::Block) | Some(Label::If) | Some(Label::Loop(_)) => {
                stack.close_label();
                Ok(ExecSuccess::Next)
            },
            _ => finish_call(store, stack, pc, last_ret),
        },
        Instruction::If(_) | Instruction::Else | Instruction::Br(_) | Instruction::BrIf(_) => {
            let done = match body(store, at) {
                Some(code) => execute_control(stack, code, pc, inst),
                None => Err(ExecError::InvariantViolation),
            };
            match done {
                Ok(()) => Ok(ExecSuccess::Next),
                Err(e) => Err(e),
            }
        },
        _ => match execute_plain(stack, *pc, inst) {
            Ok(()) => Ok(ExecSuccess::Next),
            Err(e) => Err(e),
        },
    };
    let ghost done = executed(old(store).env(), m, pc1, module, f.code@, *inst, host);
    assert(reached(done, store.globals().items, *pc, stack@, *last_ret, result)) by {
        reveal(executed);
    }
    let r = match result {
        Ok(ExecSuccess::Next) => {
            if stack.is_over_top_level() {
                Ok(ExecSuccess::End)
            } else {
                Ok(ExecSuccess::Next)
            }
        },
        other => other,
    };
    assert(reached(
        finished(
            executed(
                old(store).env(),
                Before { stack: old(stack)@, last_ret: *old(last_ret) },
                advanced(*old(pc)),
                module,
                fetched(old(store).env(), *old(pc))->Some_0.code@,
                *inst,
                host,
            ),
        ),
        store.globals().items,
        *pc,
        stack@,
        *last_ret,
        r,
    ));
    r
}

/// Executes the instruction at the counter.
pub fn execute_step<C>(
    store: &mut Store<C>,
    stack: &mut Stack,
    pc: &mut ProgramCounter,
    last_ret: &mut Option<FuncAddr>,
) -> (r: ExecResult)
    requires
        old(store).wf(),
    ensures
        final(store).wf(),
        final(store).same_but_globals(old(store)),
        exists|host: HostResult|
            reached(
                #[trigger] step(
                    old(store).env(),
                    MachineView { pc: *old(pc), stack: old(stack)@, last_ret: *old(last_ret) },
                    host,
                ),
                final(store).globals().items,
                *final(pc),
                final(stack)@,
                *final(last_ret),
                r,
            ),
{
    let ghost m = MachineView { pc: *old(pc), stack: old(stack)@, last_ret: *old(last_ret) };
    let at = *pc;
    match fetch(store, at) {
        Some((module, inst)) => {
            let r = execute_inst(store, stack, pc, last_ret, &inst, module);
            proof {
                let f = fetched(old(store).env(), at)->Some_0;
                let host = choose|host: HostResult|
                    reached(
                        finished(
                            #[trigger] executed(
                                old(store).env(),
                                Before { stack: m.stack, last_ret: m.last_ret },
                                advanced(at),
                                module,
                                f.code@,
                                inst,
                                host,
                            ),
                        ),
                        store.globals().items,
                        *pc,
                        stack@,
                        *last_ret,
                        r,
                    );
                assert(reached(
                    step(old(store).env(), m, host),
                    store.globals().items,
                    *pc,
                    stack@,
                    *last_ret,
                    r,
                ));
            }
            r
        },
        None => {
            let ghost host: HostResult = Err(Seq::empty());
            assert(reached(
                step(old(store).env(), m, host),
                store.globals().items,
                *pc,
                stack@,
                *last_ret,
                Err(ExecError::InvariantViolation),
            ));
            Err(ExecError::InvariantViolation)
        },
    }
}

/// Runs the function at `func_addr` with `args`, for at most `fuel` steps.
pub fn invoke_func<C>(func_addr: FuncAddr, args: Vec<Value>, store: &mut Store<C>, fuel: u64) -> (r:
    Result<Vec<Value>, ExecError>)
    requires
        old(store).wf(),
    ensures
        final(store).wf(),
        final(store).same_but_globals(old(store)),
        exists|hosts: Seq<HostResult>| #[trigger]
            invoked(
                old(store).env(),
                func_addr,
                args@,
                hosts,
                fuel,
                final(store).globals().items,
                r,
            ),
{
    let ghost env = old(store).env();
    let mut stack = Stack::new();
    let mut pc = ProgramCounter::new(func_addr, InstIndex::zero());
    let frame = match store.func(func_addr) {
        None => {
            let r = Err(ExecError::InvariantViolation);
            assert(invoked(env, func_addr, args@, Seq::empty(), fuel, store.globals().items, r));
            return r;
        },
        Some((FunctionInstance::Host(_), _)) => {
            stack.push_values(&args);
            assert(stack@ =~= as_entries(args@));
            let ghost pushed = stack@;
            let done = invoke(store, &mut stack, &mut pc, func_addr);
            let ghost answer = choose|host: HostResult|
                was_called(
                    #[trigger] called(
                        env,
                        pushed,
                        ProgramCounter { func_addr, inst_index: InstIndex(0) },
                        func_addr,
                        host,
                    ),
                    stack@,
                    pc,
                    pushed,
                    ProgramCounter { func_addr, inst_index: InstIndex(0) },
                    done,
                );
            let r = match done {
                Ok(()) => Ok(stack.values()),
                Err(e) => Err(e),
            };
            assert(invoked(env, func_addr, args@, seq![answer], fuel, store.globals().items, r));
            return r;
        },
        Some((FunctionInstance::Defined(defined), _)) => CallFrame::new_from_func(
            func_addr,
            defined,
            args,
            None,
        ),
    };
    stack.set_frame(frame);
    stack.push_label(Label::Return);
    let mut last_ret: Option<FuncAddr> = None;
    let ghost start = RunState {
        env,
        machine: entry_machine(
            func_addr,
            initial_locals(
                args@,
                env.funcs.items[env.funcs.resolve(
                    func_addr.0,
                    func_addr.1,
                )->Some_0 as int]->Defined_0.locals@,
            ),
        ),
    };
    assert(stack@ =~= start.machine.stack);
    let ghost mut hosts: Seq<HostResult> = Seq::empty();
    let mut left = fuel;
    while left > 0
        invariant
            store.wf(),
            store.same_but_globals(old(store)),
            env == old(store).env(),
            env.funcs.resolve(func_addr.0, func_addr.1) is Some,
            env.funcs.items[env.funcs.resolve(func_addr.0, func_addr.1)->Some_0 as int] is Defined,
            start == (RunState {
                env,
                machine: entry_machine(
                    func_addr,
                    initial_locals(
                        args@,
                        env.funcs.items[env.funcs.resolve(
                            func_addr.0,
                            func_addr.1,
                        )->Some_0 as int]->Defined_0.locals@,
                    ),
                ),
            }),
            hosts.len() + left == fuel,
            state_after(start, hosts) == Some(
                RunState {
                    env: store.env(),
                    machine: MachineView { pc, stack: stack@, last_ret },
                },
            ),
        decreases left,
    {
        let ghost before = RunState {
            env: store.env(),
            machine: MachineView { pc, stack: stack@, last_ret },
        };
        let result = execute_step(store, &mut stack, &mut pc, &mut last_ret);
        proof {
            let host = choose|host: HostResult|
                reached(
                    #[trigger] step(before.env, before.machine, host),
                    store.globals().items,
                    pc,
                    stack@,
                    last_ret,
                    result,
                );
            let ghost grown = hosts.push(host);
            assert(grown.drop_last() =~= hosts);
            hosts = grown;
            assert(store.env() == before.env.with_globals(store.globals().items));
        }
        match result {
            Ok(ExecSuccess::Next) => {},
            Ok(ExecSuccess::End) => {
                let r = Ok(stack.values());
                assert(invoked(env, func_addr, args@, hosts, fuel, store.globals().items, r));
                return r;
            },
            Err(e) => {
                let r = Err(e);
                assert(invoked(env, func_addr, args@, hosts, fuel, store.globals().items, r));
                return r;
            },
        }
        left -= 1;
    }
    let r = Err(ExecError::StepLimitExceeded);
    assert(invoked(env, func_addr, args@, hosts, fuel, store.globals().items, r));
    r
}

/// A machine with its store, to be stepped from outside.
#[verifier::reject_recursive_types(C)]
pub struct Executor<C> {
    store: Store<C>,
    pc: ProgramCounter,
    stack: Stack,
    last_ret_frame: Option<FuncAddr>,
}

impl<C> Executor<C> {
    /// The store that the executor runs on.
    pub closed spec fn spec_store(&self) -> &Store<C> {
        &self.store
    }

    /// The state of the machine.
    pub closed spec fn machine(&self) -> MachineView {
        MachineView { pc: self.pc, stack: self.stack@, last_ret: self.last_ret_frame }
    }

    /// The invariant of an executor: that of its store.
    pub open spec fn wf(&self) -> bool {
        self.spec_store().wf()
    }

    /// An executor that is about to run the function at `func_addr`: its
    /// frame has `local_len` locals, the first of which hold
    /// `initial_args`; the counter is `pc`.
    pub fn new(
        local_len: usize,
        func_addr: FuncAddr,
        initial_args: Vec<Value>,
        pc: ProgramCounter,
        store: Store<C>,
    ) -> (e: Self)
        requires
            initial_args@.len() <= local_len,
            store.wf(),
        ensures
            e.wf(),
            *e.spec_store() == store,
            e.machine() == (MachineView {
                pc,
                stack: seq![
                    Entry::Activation(
                        FrameView {
                            func_addr,
                            locals: padded_locals(initial_args@, local_len as nat),
                            ret_pc: None,
                        },
                    ),
                    Entry::Label(Label::Return),
                ],
                last_ret: None,
            }),
    {
        let mut stack = Stack::new();
        let frame = CallFrame::new(func_addr, local_len, initial_args, None);
        stack.set_frame(frame);
        stack.push_label(Label::Return);
        let e = Executor { store, pc, stack, last_ret_frame: None };
        assert(e.machine().stack =~= seq![
            Entry::Activation(
                FrameView {
                    func_addr,
                    locals: padded_locals(initial_args@, local_len as nat),
                    ret_pc: None,
                },
            ),
            Entry::Label(Label::Return),
        ]);
        e
    }

    /// The store.
    #[verifier::when_used_as_spec(spec_store)]
    pub fn store(&self) -> (s: &Store<C>)
        ensures
            s == self.spec_store(),
    {
        &self.store
    }

    /// The stack.
    pub fn stack(&self) -> (s: &Stack)
        ensures
            s@ == self.machine().stack,
    {
        &self.stack
    }

    /// The counter.
    pub fn pc(&self) -> (pc: ProgramCounter)
        ensures
            pc == self.machine().pc,
    {
        self.pc
    }

    /// Gives the store back.
    pub fn into_store(self) -> (s: Store<C>)
        ensures
            s == *self.spec_store(),
    {
        self.store
    }

    /// Executes one instruction.
    pub fn execute_step(&mut self) -> (r: ExecResult)
        requires
            old(self).wf(),
        ensures
            final(self).wf(),
            final(self).spec_store().same_but_globals(old(self).spec_store()),
            exists|host: HostResult|
                reached(
                    #[trigger] step(old(self).spec_store().env(), old(self).machine(), host),
                    final(self).spec_store().globals().items,
                    final(self).machine().pc,
                    final(self).machine().stack,
                    final(self).machine().last_ret,
                    r,
                ),
    {
        execute_step(&mut self.store, &mut self.stack, &mut self.pc, &mut self.last_ret_frame)
    }

    /// The results of the call that completed last, held against the type
    /// of its function.
    pub fn peek_result(&self) -> (r: ReturnValResult)
        requires
            self.wf(),
        ensures
            match peeked(self.spec_store().env(), self.machine()) {
                Ok(values) => r is Ok && r->Ok_0@ == values,
                Err(e) => r == Err::<Vec<Value>, ReturnValError>(e),
            },
    {
        let addr = match self.last_ret_frame {
            Some(addr) => addr,
            None => {
                return Err(ReturnValError::NoCallFrame);
            },
        };
        let func = match self.store.func(addr) {
            Some((func, _)) => func,
            None => {
                return Err(ReturnValError::NoCallFrame);
            },
        };
        match func.ty().return_type() {
            None => Ok(Vec::new()),
            Some(ty) => match self.stack.peek_last_value() {
                Some(v) => {
                    if v.value_type() == ty {
                        let mut values: Vec<Value> = Vec::new();
                        values.push(v);
                        assert(values@ =~= seq![v]);
                        Ok(values)
                    } else {
                        Err(ReturnValError::TypeMismatchReturnValue(v, ty))
                    }
                },
                None => Err(ReturnValError::NoValue(ty)),
            },
        }
    }

    /// The body of the function of the current frame; `None` where there is
    /// no frame, or its function is none that a module defines.
    pub fn current_func_insts(&self) -> (r: Option<&Vec<Instruction>>)
        requires
            self.wf(),
        ensures
            match current_frame(self.machine().stack) {
                Some(frame) => match self.spec_store().funcs().resolve(
                    frame.func_addr.0,
                    frame.func_addr.1,
                ) {
                    Some(handle) => match self.spec_store().funcs().items[handle as int] {
                        FunctionInstance::Defined(f) => r == Some(&f.code),
                        FunctionInstance::Host(_) => r is None,
                    },
                    None => r is None,
                },
                None => r is None,
            },
    {
        let addr = match self.stack.current_func_addr() {
            Some(addr) => addr,
            None => {
                return None;
            },
        };
        match self.store.func(addr) {
            Some((FunctionInstance::Defined(f), _)) => Some(&f.code),
            _ => None,
        }
    }
}

} // verus!
