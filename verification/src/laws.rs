//! What holds of every step of the interpreter: structured control, loops,
//! calls and returns.
use crate::address::FuncAddr;
use crate::executor::{
    advanced, branched, condition, depth_after, executed, fetched, finished, returned, scan_else,
    scan_end, state_after, state_of, step, Before, Env, ExecSuccess, HostResult, MachineView,
    Outcome, RunState, Trap,
};
use crate::func::FunctionView;
use crate::inst::Instruction;
use crate::stack::{
    current_frame, frame_base, initial_locals, innermost_label, lemma_frame_base,
    lemma_top_values_bound, lemma_unwound_len, top_values, under_values, unwound_len,
    values_on_top, Entry, FrameView, InstIndex, Label, ProgramCounter,
};
use vstd::prelude::*;

verus! {

/// Whether the machine is about to execute `inst`.
pub open spec fn at(env: Env, m: MachineView, inst: Instruction) -> bool {
    fetched(env, m.pc) matches Some(f) && f.code@[m.pc.inst_index.0 as int] == inst
}

/// The body of the function that the machine is in.
pub open spec fn body_of(env: Env, m: MachineView) -> Seq<Instruction> {
    fetched(env, m.pc)->Some_0.code@
}

/// The number of scopes that are open after the instructions from `from`
/// up to, not including, `to`, where `depth` were open before.
pub open spec fn depth_between(code: Seq<Instruction>, from: int, to: int, depth: int) -> int
    decreases to - from,
{
    if to <= from {
        depth
    } else {
        let before = depth_between(code, from, to - 1, depth);
        if before <= 0 {
            before
        } else {
            depth_after(code[to - 1], before as nat)
        }
    }
}

/// A loop is entered with the label of its body: `Loop` pushes a label
/// that holds the index of the instruction after it.
pub proof fn lemma_loop_label(env: Env, m: MachineView, host: HostResult)
    requires
        exists|t: crate::inst::BlockType| at(env, m, Instruction::Loop(t)),
    ensures
        step(env, m, host).stack == m.stack.push(
            Entry::Label(Label::Loop(InstIndex((m.pc.inst_index.0 + 1) as usize))),
        ),
        step(env, m, host).pc == advanced(m.pc),
        step(env, m, host).result is Ok,
{
    reveal(executed);
}

/// A branch to a loop enters the loop again: `Br 0` inside a loop, with
/// nothing but values above the label of the loop, sets the counter to the
/// index that the label holds, the first instruction of the body, and
/// leaves the stack as it is.
pub proof fn lemma_loop_reentry(env: Env, m: MachineView, start: InstIndex, host: HostResult)
    requires
        at(env, m, Instruction::Br(0)),
        innermost_label(m.stack) == Some(Label::Loop(start)),
    ensures
        step(env, m, host).pc == (ProgramCounter { func_addr: m.pc.func_addr, inst_index: start }),
        step(env, m, host).stack == m.stack,
        step(env, m, host).globals == env.globals.items,
        step(env, m, host).result is Ok,
{
    reveal(executed);
    assert(m.stack.take(m.stack.len() as int) =~= m.stack);
}

/// A branch out of nested scopes to a loop enters that loop again: the
/// labels of the scopes go with the values above them, and the counter is
/// set to the first instruction of the body of the loop.
pub proof fn lemma_branch_to_loop(
    env: Env,
    m: MachineView,
    depth: u32,
    len: int,
    start: InstIndex,
    host: HostResult,
)
    requires
        at(env, m, Instruction::Br(depth)),
        unwound_len(m.stack, depth as nat) == Some(len),
        innermost_label(m.stack.take(len)) == Some(Label::Loop(start)),
    ensures
        step(env, m, host).pc == (ProgramCounter { func_addr: m.pc.func_addr, inst_index: start }),
        step(env, m, host).stack == m.stack.take(len),
        step(env, m, host).result is Ok,
{
    reveal(executed);
}

/// The end of a block, a loop or an `If` closes the scope and keeps its
/// results: the label goes, the values above it stay in their order, and
/// the run goes on behind the `End`.
pub proof fn lemma_end_keeps_results(env: Env, m: MachineView, host: HostResult)
    requires
        at(env, m, Instruction::End),
        innermost_label(m.stack) matches Some(label) && label != Label::Return,
    ensures
        ({
            let under = under_values(m.stack);
            let o = step(env, m, host);
            &&& o.stack == m.stack.take(under) + m.stack.skip(under + 1)
            &&& o.stack.len() == m.stack.len() - 1
            &&& forall|i: int| 0 <= i < under ==> o.stack[i] == m.stack[i]
            &&& forall|i: int| under <= i < o.stack.len() ==> o.stack[i] == m.stack[i + 1]
            &&& o.pc == advanced(m.pc)
            &&& o.globals == env.globals.items
            &&& o.result is Ok
        }),
{
    reveal(executed);
    lemma_top_values_bound(m.stack);
    let under = under_values(m.stack);
    assert(m.stack.remove(under) =~= m.stack.take(under) + m.stack.skip(under + 1));
}

/// A block that is entered and closed at once leaves the stack as it was.
pub proof fn lemma_block_round_trip(env: Env, m: MachineView, host: HostResult, host2: HostResult)
    requires
        exists|t: crate::inst::BlockType| at(env, m, Instruction::Block(t)),
        fetched(env, advanced(m.pc)) is Some,
        body_of(env, m)[m.pc.inst_index.0 + 1] == Instruction::End,
        m.pc.inst_index.0 + 1 < usize::MAX,
    ensures
        ({
            let entered = step(env, m, host);
            let closed = step(
                env,
                MachineView { pc: entered.pc, stack: entered.stack, last_ret: entered.last_ret },
                host2,
            );
            &&& closed.stack == m.stack
            &&& closed.pc == advanced(advanced(m.pc))
            &&& closed.globals == env.globals.items
        }),
{
    reveal(executed);
    let entered = step(env, m, host);
    let s = m.stack.push(Entry::Label(Label::Block));
    assert(entered.stack == s);
    assert(top_values(s) == 0);
    assert(s.remove(under_values(s)) =~= m.stack);
}

/// An `If` whose condition is not zero goes on with its first branch: the
/// condition goes, the label of the `If` comes, and the counter moves to
/// the next instruction.
pub proof fn lemma_if_taken(env: Env, m: MachineView, c: i32, host: HostResult)
    requires
        exists|t: crate::inst::BlockType| at(env, m, Instruction::If(t)),
        m.stack.len() > 0,
        m.stack.last() == Entry::Value(crate::value::Value::I32(c)),
        c != 0,
    ensures
        step(env, m, host).stack == m.stack.drop_last().push(Entry::Label(Label::If)),
        step(env, m, host).pc == advanced(m.pc),
        step(env, m, host).result is Ok,
{
    reveal(executed);
}

/// An `If` whose condition is zero skips its first branch: the condition
/// goes, the label of the `If` comes, and the counter moves to where the
/// scan for the `Else` lands, just past the `Else` of this `If` or, where
/// it has none, on its `End`.
pub proof fn lemma_if_skipped(env: Env, m: MachineView, target: int, host: HostResult)
    requires
        exists|t: crate::inst::BlockType| at(env, m, Instruction::If(t)),
        m.stack.len() > 0,
        m.stack.last() == Entry::Value(crate::value::Value::I32(0)),
        scan_else(body_of(env, m), m.pc.inst_index.0 + 1, 1) == Some(target),
        m.pc.inst_index.0 < usize::MAX,
    ensures
        step(env, m, host).stack == m.stack.drop_last().push(Entry::Label(Label::If)),
        step(env, m, host).pc == (ProgramCounter {
            func_addr: m.pc.func_addr,
            inst_index: InstIndex(target as usize),
        }),
        step(env, m, host).result is Ok,
{
    reveal(executed);
}

/// An `Else` that the first branch of an `If` runs into leaves the `If`:
/// the counter moves to the `End` of the `If`, and the stack, with the
/// results of the branch above the label, stays as it is.
pub proof fn lemma_else_leaves_if(env: Env, m: MachineView, target: int, host: HostResult)
    requires
        at(env, m, Instruction::Else),
        innermost_label(m.stack) == Some(Label::If),
        scan_end(body_of(env, m), m.pc.inst_index.0 + 1, 1) == Some(target),
        m.pc.inst_index.0 < usize::MAX,
    ensures
        step(env, m, host).stack == m.stack,
        step(env, m, host).pc == (ProgramCounter {
            func_addr: m.pc.func_addr,
            inst_index: InstIndex(target as usize),
        }),
        step(env, m, host).result is Ok,
{
    reveal(executed);
    assert(m.stack.take(m.stack.len() as int) =~= m.stack);
}

/// The scan for the end of a scope lands on the `End` that closes it: on
/// the first instruction at which the number of open scopes, counted from
/// where the scan starts, comes down to none.
pub proof fn lemma_scan_end_matches(code: Seq<Instruction>, from: int, depth: nat, target: int)
    requires
        depth >= 1,
        0 <= from,
        scan_end(code, from, depth) == Some(target),
    ensures
        from <= target < code.len(),
        code[target] is End,
        depth_between(code, from, target + 1, depth as int) == 0,
        forall|to: int| from <= to <= target ==> depth_between(code, from, to, depth as int) > 0,
    decreases code.len() - from,
{
    let d = depth_after(code[from], depth);
    if d <= 0 {
        assert(target == from);
        assert(depth_between(code, from, from, depth as int) == depth);
        assert(depth_between(code, from, from + 1, depth as int) == d);
    } else {
        lemma_scan_end_matches(code, from + 1, d as nat, target);
        assert forall|to: int| from + 1 <= to <= target + 1 implies depth_between(
            code,
            from,
            to,
            depth as int,
        ) == depth_between(code, from + 1, to, d) by {
            lemma_depth_between_shift(code, from, to, depth as int);
        }
        assert(depth_between(code, from, from, depth as int) == depth);
    }
}

/// The scan past the first branch of an `If` lands just past the `Else`
/// of that `If`, which is the first `Else` met with no other scope open,
/// or, where the `If` has no `Else`, on the `End` that closes it. Up to
/// there no instruction closes the `If`.
pub proof fn lemma_scan_else_matches(code: Seq<Instruction>, from: int, depth: nat, target: int)
    requires
        depth >= 1,
        0 <= from,
        scan_else(code, from, depth) == Some(target),
    ensures
        from <= target <= code.len(),
        ({
            ||| {
                &&& from < target
                &&& code[target - 1] is Else
                &&& depth_between(code, from, target - 1, depth as int) == 1
            }
            ||| {
                &&& target < code.len()
                &&& code[target] is End
                &&& depth_between(code, from, target + 1, depth as int) == 0
            }
        }),
        forall|to: int|
            from <= to < target ==> depth_between(code, from, to, depth as int) > 0,
    decreases code.len() - from,
{
    assert(depth_between(code, from, from, depth as int) == depth);
    if code[from] is Else && depth == 1 {
        assert(target == from + 1);
    } else {
        let d = depth_after(code[from], depth);
        if d <= 0 {
            assert(target == from);
            assert(depth_between(code, from, from + 1, depth as int) == d);
        } else {
            lemma_scan_else_matches(code, from + 1, d as nat, target);
            assert forall|to: int| from + 1 <= to <= target + 1 implies depth_between(
                code,
                from,
                to,
                depth as int,
            ) == depth_between(code, from + 1, to, d) by {
                lemma_depth_between_shift(code, from, to, depth as int);
            }
        }
    }
}

/// The open scopes can be counted from one instruction later, starting
/// with what the first instruction leaves open.
pub proof fn lemma_depth_between_shift(code: Seq<Instruction>, from: int, to: int, depth: int)
    requires
        depth >= 1,
        from < to,
    ensures
        depth_between(code, from, to, depth) == depth_between(
            code,
            from + 1,
            to,
            depth_after(code[from], depth as nat),
        ),
    decreases to - from,
{
    if to == from + 1 {
        assert(depth_between(code, from, from, depth) == depth);
        assert(depth_between(code, from + 1, from + 1, depth_after(code[from], depth as nat))
            == depth_after(code[from], depth as nat));
    } else {
        lemma_depth_between_shift(code, from, to - 1, depth);
    }
}

/// Whether the stack holds, right above the entries `base`, the frame of a
/// call of the function at `addr` that returns to `ret`.
pub open spec fn in_call(s: Seq<Entry>, base: Seq<Entry>, addr: FuncAddr, ret: ProgramCounter) -> bool {
    &&& s.len() > base.len()
    &&& s.take(base.len() as int) == base
    &&& s[base.len() as int] matches Entry::Activation(frame) && frame.func_addr == addr
        && frame.ret_pc == Some(ret)
}

/// The number of results of the function at an address.
pub open spec fn result_arity(env: Env, addr: FuncAddr) -> nat {
    env.funcs.items[env.funcs.resolve(addr.0, addr.1)->Some_0 as int].ty().result_arity()
}

/// Whether the outcome `o` is the return from the call whose frame lay
/// right above `base`: the stack is `base` and on it the results, as many
/// values as the function declares, and the counter is where the frame
/// returns to.
pub open spec fn returned_from(
    env: Env,
    o: Outcome,
    base: Seq<Entry>,
    addr: FuncAddr,
    ret: ProgramCounter,
) -> bool {
    &&& o.result is Ok
    &&& o.pc == ret
    &&& o.last_ret == Some(addr)
    &&& o.stack.len() == base.len() + result_arity(env, addr)
    &&& o.stack.take(base.len() as int) == base
    &&& forall|i: int| base.len() <= i < o.stack.len() ==> (#[trigger] o.stack[i]) is Value
}

/// A call of a function that a module defines takes the arguments from the
/// stack and puts the frame of the call in their place, which returns to
/// the instruction after the call.
pub proof fn lemma_call_enters(env: Env, m: MachineView, index: u32, host: HostResult)
    requires
        at(env, m, Instruction::Call(index)),
        m.pc.inst_index.0 < usize::MAX,
        ({
            let addr = FuncAddr(fetched(env, m.pc)->Some_0.module_index, index as usize);
            &&& env.funcs.resolve(addr.0, addr.1) matches Some(handle)
            &&& env.funcs.items[handle as int] matches FunctionView::Defined(callee)
            &&& top_values(m.stack) >= callee.ty@.params.len()
        }),
    ensures
        ({
            let addr = FuncAddr(fetched(env, m.pc)->Some_0.module_index, index as usize);
            let callee = env.funcs.items[env.funcs.resolve(
                addr.0,
                addr.1,
            )->Some_0 as int]->Defined_0;
            let n = callee.ty@.params.len();
            let base = m.stack.take(m.stack.len() - n);
            let o = step(env, m, host);
            &&& o.result == Ok::<ExecSuccess, Trap>(ExecSuccess::Next)
            &&& o.pc == (ProgramCounter { func_addr: addr, inst_index: InstIndex(0) })
            &&& o.stack == base.push(
                Entry::Activation(
                    FrameView {
                        func_addr: addr,
                        locals: initial_locals(values_on_top(m.stack, n), callee.locals@),
                        ret_pc: Some(advanced(m.pc)),
                    },
                ),
            ).push(Entry::Label(Label::Return))
            &&& in_call(o.stack, base, addr, advanced(m.pc))
        }),
{
    reveal(executed);
    lemma_top_values_bound(m.stack);
    let addr = FuncAddr(fetched(env, m.pc)->Some_0.module_index, index as usize);
    let callee = env.funcs.items[env.funcs.resolve(addr.0, addr.1)->Some_0 as int]->Defined_0;
    let n = callee.ty@.params.len();
    let base = m.stack.take(m.stack.len() - n);
    let o = step(env, m, host);
    let entered = base.push(
        Entry::Activation(
            FrameView {
                func_addr: addr,
                locals: initial_locals(values_on_top(m.stack, n), callee.locals@),
                ret_pc: Some(advanced(m.pc)),
            },
        ),
    ).push(Entry::Label(Label::Return));
    assert(entered.take(base.len() as int) =~= base);
    assert(crate::stack::frame_labels(entered) =~= seq![Label::Return]) by {
        assert(entered.drop_last().last() is Activation);
        assert(crate::stack::frame_labels(entered.drop_last()) =~= Seq::<Label>::empty());
    }
}

/// Whatever a step does inside a call, it leaves what lay under the frame
/// of the call as it was: the step either stays inside the call, or it is
/// the return from the call, which leaves the stack that lay under the
/// frame with the results on it and the counter where the frame returns
/// to.
pub proof fn lemma_step_in_call(
    env: Env,
    m: MachineView,
    base: Seq<Entry>,
    addr: FuncAddr,
    ret: ProgramCounter,
    host: HostResult,
)
    requires
        in_call(m.stack, base, addr, ret),
    ensures
        in_call(step(env, m, host).stack, base, addr, ret) || returned_from(
            env,
            step(env, m, host),
            base,
            addr,
            ret,
        ),
{
    reveal(executed);
    let s = m.stack;
    let n = base.len() as int;
    let o = step(env, m, host);
    lemma_frame_base(s);
    lemma_top_values_bound(s);
    assert(s[n] is Activation);
    assert(frame_base(s) >= n);
    assert(under_values(s) >= n) by {
        if under_values(s) < n {
            assert(s[n] is Value);
        }
    }
    match fetched(env, m.pc) {
        None => {},
        Some(f) => {
            let pc = advanced(m.pc);
            let before = Before { stack: s, last_ret: m.last_ret };
            let inst = f.code@[m.pc.inst_index.0 as int];
            let done = executed(env, before, pc, f.module_index, f.code@, inst, host);
            assert(o.stack == done.stack);
            match inst {
                Instruction::SetLocal(i) => {
                    if s.len() > 0 && s.last() is Value {
                        let rest = s.drop_last();
                        lemma_frame_base(rest);
                        assert(rest[n] == s[n]);
                        assert(frame_base(rest) >= n);
                        if done.result is Ok {
                            assert(done.stack.take(n) =~= base);
                        }
                    }
                },
                Instruction::Br(depth) => {
                    lemma_branch_in_call(s, f.code@, pc, depth as nat, base, addr, ret);
                },
                Instruction::Else => {
                    lemma_branch_in_call(s, f.code@, pc, 0, base, addr, ret);
                },
                Instruction::BrIf(depth) => {
                    if condition(s) is Ok {
                        let rest = s.drop_last();
                        assert(rest.take(n) =~= base);
                        lemma_branch_in_call(rest, f.code@, pc, depth as nat, base, addr, ret);
                    }
                },
                Instruction::If(_) => {
                    if done.result is Ok {
                        assert(done.stack.take(n) =~= base);
                    }
                },
                Instruction::Call(i) => {
                    if done.result is Ok {
                        assert(done.stack.take(n) =~= base);
                    }
                },
                Instruction::Return => {
                    lemma_return_in_call(env, before, pc, base, addr, ret);
                },
                Instruction::End => {
                    match innermost_label(s) {
                        Some(Label::Block) | Some(Label::If) | Some(Label::Loop(_)) => {
                            assert(done.stack == s.remove(under_values(s)));
                            assert(under_values(s) > n);
                            assert(done.stack.take(n) =~= base);
                        },
                        _ => {
                            lemma_return_in_call(env, before, pc, base, addr, ret);
                        },
                    }
                },
                _ => {
                    if done.result is Ok {
                        assert(done.stack.take(n) =~= base);
                    }
                },
            }
        },
    }
}

/// A branch inside a call stays inside the call.
pub proof fn lemma_branch_in_call(
    s: Seq<Entry>,
    code: Seq<Instruction>,
    pc: ProgramCounter,
    depth: nat,
    base: Seq<Entry>,
    addr: FuncAddr,
    ret: ProgramCounter,
)
    requires
        in_call(s, base, addr, ret),
    ensures
        branched(s, code, pc, depth) matches Ok((stack, _)) ==> in_call(stack, base, addr, ret),
{
    lemma_frame_base(s);
    lemma_unwound_len(s, depth);
    let n = base.len() as int;
    assert(s[n] is Activation);
    match unwound_len(s, depth) {
        Some(len) => {
            assert(len > n);
            assert(s.take(len).take(n) =~= base);
        },
        None => {},
    }
}

/// The end of a call inside a call either stays inside the outer call or
/// is the return from it.
pub proof fn lemma_return_in_call(
    env: Env,
    m: Before,
    pc: ProgramCounter,
    base: Seq<Entry>,
    addr: FuncAddr,
    ret: ProgramCounter,
)
    requires
        in_call(m.stack, base, addr, ret),
    ensures
        in_call(returned(env, m, pc).stack, base, addr, ret) || returned_from(
            env,
            finished(returned(env, m, pc)),
            base,
            addr,
            ret,
        ),
        returned(env, m, pc).stack == finished(returned(env, m, pc)).stack,
{
    let s = m.stack;
    let n = base.len() as int;
    lemma_frame_base(s);
    lemma_top_values_bound(s);
    assert(s[n] is Activation);
    let o = returned(env, m, pc);
    if o.result is Ok {
        let fb = frame_base(s);
        let frame = current_frame(s)->Some_0;
        let arity = env.funcs.items[env.funcs.resolve(
            frame.func_addr.0,
            frame.func_addr.1,
        )->Some_0 as int].ty().result_arity();
        assert(o.stack == s.take(fb) + s.skip(s.len() - arity));
        if fb == n {
            assert(o.stack.take(n) =~= base);
            assert forall|i: int| n <= i < o.stack.len() implies
                (#[trigger] o.stack[i]) is Value by {
                assert(o.stack[i] == s[s.len() - arity + (i - n)]);
            }
            lemma_no_frame_above(o.stack, n);
        } else {
            assert(o.stack.take(n) =~= base);
            assert(o.stack[n] == s[n]);
        }
    }
}

/// Where nothing but values lies above the lowest `n` entries, the current
/// frame lies among those.
pub proof fn lemma_no_frame_above(s: Seq<Entry>, n: int)
    requires
        0 <= n <= s.len(),
        forall|i: int| n <= i < s.len() ==> (#[trigger] s[i]) is Value,
    ensures
        frame_base(s) < n,
    decreases s.len() - n,
{
    if n < s.len() {
        assert(s.last() is Value);
        assert forall|i: int| n <= i < s.drop_last().len() implies (
        #[trigger] s.drop_last()[i]) is Value by {
            assert(s[i] is Value);
        }
        lemma_no_frame_above(s.drop_last(), n);
        assert(s.drop_last().take(n) =~= s.take(n));
    } else {
        lemma_frame_base(s);
        assert(s.take(n) =~= s);
    }
}

/// Whether the machine has just returned from the call whose frame lay
/// right above `base`: on `base` lie the results, as many values as the
/// function declares, and the counter is where the frame returned to.
pub open spec fn back_from(
    env: Env,
    m: MachineView,
    base: Seq<Entry>,
    addr: FuncAddr,
    ret: ProgramCounter,
) -> bool {
    &&& m.pc == ret
    &&& m.last_ret == Some(addr)
    &&& m.stack.len() == base.len() + result_arity(env, addr)
    &&& m.stack.take(base.len() as int) == base
    &&& forall|i: int| base.len() <= i < m.stack.len() ==> (#[trigger] m.stack[i]) is Value
}

/// A run changes no function.
pub proof fn lemma_run_keeps_funcs(start: RunState, hosts: Seq<HostResult>)
    requires
        state_after(start, hosts) is Some,
    ensures
        state_after(start, hosts)->Some_0.env.funcs == start.env.funcs,
    decreases hosts.len(),
{
    if hosts.len() > 0 {
        lemma_run_keeps_funcs(start, hosts.drop_last());
    }
}

/// Call and return are even: a run that starts inside a call is, after any
/// number of steps, either still inside that call, with what lay under its
/// frame untouched, or it has at some step returned from the call, and
/// then the stack was what lay under the frame with the results on it, and
/// the counter was where the frame returns to.
pub proof fn lemma_call_return_parity(
    start: RunState,
    hosts: Seq<HostResult>,
    base: Seq<Entry>,
    addr: FuncAddr,
    ret: ProgramCounter,
)
    requires
        in_call(start.machine.stack, base, addr, ret),
        state_after(start, hosts) is Some,
    ensures
        in_call(state_after(start, hosts)->Some_0.machine.stack, base, addr, ret) || exists|k: int|
            0 < k <= hosts.len() && (#[trigger] state_after(start, hosts.take(k))) is Some
                && back_from(
                start.env,
                state_after(start, hosts.take(k))->Some_0.machine,
                base,
                addr,
                ret,
            ),
    decreases hosts.len(),
{
    if hosts.len() > 0 {
        let earlier = hosts.drop_last();
        lemma_call_return_parity(start, earlier, base, addr, ret);
        let s = state_after(start, earlier)->Some_0;
        if in_call(s.machine.stack, base, addr, ret) {
            lemma_run_keeps_funcs(start, earlier);
            lemma_step_in_call(s.env, s.machine, base, addr, ret, hosts.last());
            let o = step(s.env, s.machine, hosts.last());
            if !in_call(o.stack, base, addr, ret) {
                assert(hosts.take(hosts.len() as int) =~= hosts);
                assert(back_from(
                    start.env,
                    state_after(start, hosts.take(hosts.len() as int))->Some_0.machine,
                    base,
                    addr,
                    ret,
                ));
            }
        } else {
            let k = choose|k: int|
                0 < k <= earlier.len() && (#[trigger] state_after(start, earlier.take(k))) is Some
                    && back_from(
                    start.env,
                    state_after(start, earlier.take(k))->Some_0.machine,
                    base,
                    addr,
                    ret,
                );
            assert(hosts.take(k) =~= earlier.take(k));
        }
    }
}

/// A call and its return, end to end: after a call of a function that a
/// module defines, and any number of further steps, the run is either
/// still inside the call, or it has at some step come back from it, and
/// then the stack was the stack before the call without the arguments and
/// with the results on it, and the counter stood behind the call.
pub proof fn lemma_call_then_return(
    env: Env,
    m: MachineView,
    index: u32,
    host: HostResult,
    hosts: Seq<HostResult>,
)
    requires
        at(env, m, Instruction::Call(index)),
        m.pc.inst_index.0 < usize::MAX,
        ({
            let addr = FuncAddr(fetched(env, m.pc)->Some_0.module_index, index as usize);
            &&& env.funcs.resolve(addr.0, addr.1) matches Some(handle)
            &&& env.funcs.items[handle as int] matches FunctionView::Defined(callee)
            &&& top_values(m.stack) >= callee.ty@.params.len()
        }),
        state_after(state_of(env, step(env, m, host)), hosts) is Some,
    ensures
        ({
            let addr = FuncAddr(fetched(env, m.pc)->Some_0.module_index, index as usize);
            let callee = env.funcs.items[env.funcs.resolve(
                addr.0,
                addr.1,
            )->Some_0 as int]->Defined_0;
            let base = m.stack.take(m.stack.len() - callee.ty@.params.len());
            let entered = state_of(env, step(env, m, host));
            in_call(state_after(entered, hosts)->Some_0.machine.stack, base, addr, advanced(m.pc))
                || exists|k: int|
                0 < k <= hosts.len() && (#[trigger] state_after(entered, hosts.take(k))) is Some
                    && back_from(
                    env,
                    state_after(entered, hosts.take(k))->Some_0.machine,
                    base,
                    addr,
                    advanced(m.pc),
                )
        }),
{
    lemma_call_enters(env, m, index, host);
    let addr = FuncAddr(fetched(env, m.pc)->Some_0.module_index, index as usize);
    let callee = env.funcs.items[env.funcs.resolve(addr.0, addr.1)->Some_0 as int]->Defined_0;
    let base = m.stack.take(m.stack.len() - callee.ty@.params.len());
    let entered = state_of(env, step(env, m, host));
    lemma_call_return_parity(entered, hosts, base, addr, advanced(m.pc));
}

/// A global that was declared immutable is never written: `SetGlobal` on
/// it traps and leaves the globals and the stack as they are.
pub proof fn lemma_immutable_global_is_kept(env: Env, m: MachineView, index: u32, host: HostResult)
    requires
        at(env, m, Instruction::SetGlobal(index)),
        env.globals.resolve(fetched(env, m.pc)->Some_0.module_index, index as usize) matches Some(
            handle,
        ) && !env.globals.items[handle as int].ty.mutable,
    ensures
        step(env, m, host).result is Err,
        step(env, m, host).globals == env.globals.items,
        step(env, m, host).stack == m.stack,
{
    reveal(executed);
}

/// A step writes no global but the one that a `SetGlobal` names, and that
/// one only if it is mutable; the types of the globals stay.
pub proof fn lemma_step_keeps_global_types(env: Env, m: MachineView, host: HostResult)
    requires
        env.globals.wf(),
    ensures
        step(env, m, host).globals.len() == env.globals.items.len(),
        forall|h: int|
            0 <= h < env.globals.items.len() ==> (#[trigger] step(env, m, host).globals[h]).ty
                == env.globals.items[h].ty && (!env.globals.items[h].ty.mutable ==> step(
                env,
                m,
                host,
            ).globals[h] == env.globals.items[h]),
{
    reveal(executed);
    match fetched(env, m.pc) {
        Some(f) => match f.code@[m.pc.inst_index.0 as int] {
            Instruction::SetGlobal(i) => {
                match env.globals.resolve(f.module_index, i as usize) {
                    Some(handle) => {
                        assert(env.globals.locals[f.module_index.0][i as int] == handle);
                    },
                    None => {},
                }
            },
            _ => {},
        },
        None => {},
    }
}

/// Whether an entry is what it was, but for the values of the locals of a
/// frame.
pub open spec fn same_but_locals(before: Entry, after: Entry) -> bool {
    ||| before == after
    ||| {
        &&& before matches Entry::Activation(f)
        &&& after matches Entry::Activation(g)
        &&& f.func_addr == g.func_addr
        &&& f.ret_pc == g.ret_pc
    }
}

/// Whether the entries `now` are the entries `base`, but for the values of
/// the locals of frames.
pub open spec fn kept(base: Seq<Entry>, now: Seq<Entry>) -> bool {
    &&& now.len() == base.len()
    &&& forall|i: int| 0 <= i < base.len() ==> #[trigger] same_but_locals(base[i], now[i])
}

/// Whether the scope with the label `label` is open on what `base` was when
/// it was opened: the label lies right above entries that are `base` but
/// for the locals of frames.
pub open spec fn in_scope(s: Seq<Entry>, base: Seq<Entry>, label: Label) -> bool {
    &&& s.len() > base.len()
    &&& kept(base, s.take(base.len() as int))
    &&& s[base.len() as int] == Entry::Label(label)
    &&& label != Label::Return
}

/// Whether the scope that was opened on `base` has been left: of what
/// `base` was a lower part is there, and above it nothing but values. The
/// end of the scope leaves all of `base` with the results of the scope; a
/// branch further out or a return leaves less.
pub open spec fn left_scope(s: Seq<Entry>, base: Seq<Entry>) -> bool {
    exists|k: int|
        0 <= k <= base.len() && k <= s.len() && #[trigger] kept(base.take(k), s.take(k))
            && forall|i: int| k <= i < s.len() ==> (#[trigger] s[i]) is Value
}

/// Scopes are well bracketed: whatever a step does inside a scope, it
/// leaves the label of the scope and what lies under it as they are, but
/// for the locals of frames, unless it leaves the scope; and then nothing
/// but values lies on what was under the label.
pub proof fn lemma_step_in_scope(
    env: Env,
    m: MachineView,
    base: Seq<Entry>,
    label: Label,
    host: HostResult,
)
    requires
        in_scope(m.stack, base, label),
    ensures
        in_scope(step(env, m, host).stack, base, label) || left_scope(
            step(env, m, host).stack,
            base,
        ),
{
    reveal(executed);
    let s = m.stack;
    let n = base.len() as int;
    let o = step(env, m, host);
    lemma_frame_base(s);
    lemma_top_values_bound(s);
    assert(frame_base(s) != n);
    assert(under_values(s) >= n) by {
        if under_values(s) < n {
            assert(s[n] is Value);
        }
    }
    match fetched(env, m.pc) {
        None => {},
        Some(f) => {
            let pc = advanced(m.pc);
            let before = Before { stack: s, last_ret: m.last_ret };
            let inst = f.code@[m.pc.inst_index.0 as int];
            let done = executed(env, before, pc, f.module_index, f.code@, inst, host);
            assert(o.stack == done.stack);
            match inst {
                Instruction::SetLocal(i) => {
                    if done.result is Ok {
                        let rest = s.drop_last();
                        lemma_frame_base(rest);
                        lemma_frame_base_drop(s);
                        assert(rest[n] == s[n]);
                        assert forall|j: int| 0 <= j < n implies #[trigger] same_but_locals(
                            base[j],
                            done.stack.take(n)[j],
                        ) by {
                            assert(same_but_locals(base[j], s.take(n)[j]));
                        }
                    }
                },
                Instruction::Br(depth) => {
                    lemma_branch_in_scope(s, f.code@, pc, depth as nat, base, label);
                },
                Instruction::Else => {
                    lemma_branch_in_scope(s, f.code@, pc, 0, base, label);
                },
                Instruction::BrIf(depth) => {
                    if condition(s) is Ok {
                        let rest = s.drop_last();
                        assert(rest.take(n) =~= s.take(n));
                        lemma_branch_in_scope(rest, f.code@, pc, depth as nat, base, label);
                    }
                },
                Instruction::Return => {
                    lemma_return_in_scope(env, before, pc, base, label);
                },
                Instruction::End => {
                    match innermost_label(s) {
                        Some(Label::Block) | Some(Label::If) | Some(Label::Loop(_)) => {
                            let under = under_values(s);
                            assert(done.stack == s.remove(under));
                            if under > n {
                                assert(done.stack.take(n) =~= s.take(n));
                            } else {
                                assert(done.stack.take(n) =~= s.take(n));
                                assert(base.take(n) =~= base);
                                assert(kept(base.take(n), done.stack.take(n)));
                            }
                        },
                        _ => {
                            lemma_return_in_scope(env, before, pc, base, label);
                        },
                    }
                },
                _ => {
                    if done.result is Ok {
                        assert(done.stack.take(n) =~= s.take(n));
                    }
                },
            }
        },
    }
}

/// The current frame of a stack with a value on top is that of the stack
/// without the value.
pub proof fn lemma_frame_base_drop(s: Seq<Entry>)
    requires
        s.len() > 0,
        !(s.last() is Activation),
    ensures
        frame_base(s.drop_last()) == frame_base(s),
{
}

/// A lower part of kept entries is kept.
pub proof fn lemma_kept_take(base: Seq<Entry>, now: Seq<Entry>, k: int)
    requires
        kept(base, now),
        0 <= k <= base.len(),
    ensures
        kept(base.take(k), now.take(k)),
{
    assert forall|i: int| 0 <= i < k implies #[trigger] same_but_locals(
        base.take(k)[i],
        now.take(k)[i],
    ) by {
        assert(same_but_locals(base[i], now[i]));
    }
}

/// A branch inside a scope stays inside the scope or leaves it.
pub proof fn lemma_branch_in_scope(
    s: Seq<Entry>,
    code: Seq<Instruction>,
    pc: ProgramCounter,
    depth: nat,
    base: Seq<Entry>,
    label: Label,
)
    requires
        in_scope(s, base, label),
    ensures
        branched(s, code, pc, depth) matches Ok((stack, _)) ==> in_scope(stack, base, label)
            || left_scope(stack, base),
{
    let n = base.len() as int;
    match unwound_len(s, depth) {
        Some(len) => {
            lemma_unwound_len(s, depth);
            let stack = s.take(len);
            if len > n {
                assert(stack.take(n) =~= s.take(n));
            } else {
                lemma_kept_take(base, s.take(n), len);
                assert(s.take(n).take(len) =~= stack.take(len));
                assert(kept(base.take(len), stack.take(len)));
            }
        },
        None => {},
    }
}

/// The end of a call inside a scope stays inside the scope or leaves it.
pub proof fn lemma_return_in_scope(
    env: Env,
    m: Before,
    pc: ProgramCounter,
    base: Seq<Entry>,
    label: Label,
)
    requires
        in_scope(m.stack, base, label),
    ensures
        in_scope(returned(env, m, pc).stack, base, label) || left_scope(
            returned(env, m, pc).stack,
            base,
        ),
        returned(env, m, pc).stack == finished(returned(env, m, pc)).stack,
{
    let s = m.stack;
    let n = base.len() as int;
    lemma_frame_base(s);
    lemma_top_values_bound(s);
    let o = returned(env, m, pc);
    if o.result is Ok {
        let fb = frame_base(s);
        let frame = current_frame(s)->Some_0;
        let arity = env.funcs.items[env.funcs.resolve(
            frame.func_addr.0,
            frame.func_addr.1,
        )->Some_0 as int].ty().result_arity();
        assert(o.stack == s.take(fb) + s.skip(s.len() - arity));
        if fb > n {
            assert(o.stack.take(n) =~= s.take(n));
            assert(o.stack[n] == s[n]);
        } else {
            lemma_kept_take(base, s.take(n), fb);
            assert(s.take(n).take(fb) =~= o.stack.take(fb));
            assert(kept(base.take(fb), o.stack.take(fb)));
            assert forall|i: int| fb <= i < o.stack.len() implies
                (#[trigger] o.stack[i]) is Value by {
                assert(o.stack[i] == s[s.len() - arity + (i - fb)]);
            }
        }
    }
}

/// A block opens a scope on the stack as it is.
pub proof fn lemma_block_opens_scope(env: Env, m: MachineView, host: HostResult)
    requires
        exists|t: crate::inst::BlockType| at(env, m, Instruction::Block(t)),
    ensures
        in_scope(step(env, m, host).stack, m.stack, Label::Block),
{
    reveal(executed);
    let o = step(env, m, host);
    assert(o.stack.take(m.stack.len() as int) =~= m.stack);
}

/// A loop opens a scope on the stack as it is, under a label that holds
/// the index of the first instruction of its body.
pub proof fn lemma_loop_opens_scope(env: Env, m: MachineView, host: HostResult)
    requires
        exists|t: crate::inst::BlockType| at(env, m, Instruction::Loop(t)),
    ensures
        in_scope(
            step(env, m, host).stack,
            m.stack,
            Label::Loop(InstIndex((m.pc.inst_index.0 + 1) as usize)),
        ),
{
    reveal(executed);
    let o = step(env, m, host);
    assert(o.stack.take(m.stack.len() as int) =~= m.stack);
}

/// An `If` opens a scope on the stack without its condition.
pub proof fn lemma_if_opens_scope(env: Env, m: MachineView, host: HostResult)
    requires
        exists|t: crate::inst::BlockType| at(env, m, Instruction::If(t)),
        step(env, m, host).result is Ok,
    ensures
        in_scope(step(env, m, host).stack, m.stack.drop_last(), Label::If),
{
    reveal(executed);
    let o = step(env, m, host);
    assert(o.stack.take(m.stack.len() - 1) =~= m.stack.drop_last());
}

/// Structured control comes back: a run that starts inside a scope is,
/// after any number of steps, either still inside the scope, with what lay
/// under its label as it was but for the locals of frames, or it has at
/// some step left the scope, and then nothing but values lay on what was
/// under the label.
pub proof fn lemma_scope_round_trip(
    start: RunState,
    hosts: Seq<HostResult>,
    base: Seq<Entry>,
    label: Label,
)
    requires
        in_scope(start.machine.stack, base, label),
        state_after(start, hosts) is Some,
    ensures
        in_scope(state_after(start, hosts)->Some_0.machine.stack, base, label) || exists|k: int|
            0 < k <= hosts.len() && (#[trigger] state_after(start, hosts.take(k))) is Some
                && left_scope(state_after(start, hosts.take(k))->Some_0.machine.stack, base),
    decreases hosts.len(),
{
    if hosts.len() > 0 {
        let earlier = hosts.drop_last();
        lemma_scope_round_trip(start, earlier, base, label);
        let s = state_after(start, earlier)->Some_0;
        if in_scope(s.machine.stack, base, label) {
            lemma_step_in_scope(s.env, s.machine, base, label, hosts.last());
            let o = step(s.env, s.machine, hosts.last());
            if !in_scope(o.stack, base, label) {
                assert(hosts.take(hosts.len() as int) =~= hosts);
                assert(left_scope(
                    state_after(start, hosts.take(hosts.len() as int))->Some_0.machine.stack,
                    base,
                ));
            }
        } else {
            let k = choose|k: int|
                0 < k <= earlier.len() && (#[trigger] state_after(start, earlier.take(k))) is Some
                    && left_scope(state_after(start, earlier.take(k))->Some_0.machine.stack, base);
            assert(hosts.take(k) =~= earlier.take(k));
        }
    }
}

} // verus!
