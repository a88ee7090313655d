//! The runtime stack: values, labels and call frames in one sequence.
use crate::address::FuncAddr;
use crate::func::DefinedFunctionInstance;
use crate::value::{Value, ValueType};
use vstd::prelude::*;

verus! {

/// Position of an instruction in the body of a function.
#[derive(Clone, Copy, Debug, PartialEq, Eq, Structural)]
pub struct InstIndex(pub usize);

impl InstIndex {
    pub fn zero() -> (i: InstIndex)
        ensures
            i == InstIndex(0),
    {
        InstIndex(0)
    }
}

/// The instruction to execute next.
#[derive(Clone, Copy, Debug, PartialEq, Eq, Structural)]
pub struct ProgramCounter {
    pub func_addr: FuncAddr,
    pub inst_index: InstIndex,
}

impl ProgramCounter {
    pub fn new(func_addr: FuncAddr, inst_index: InstIndex) -> (pc: ProgramCounter)
        ensures
            pc == (ProgramCounter { func_addr, inst_index }),
    {
        ProgramCounter { func_addr, inst_index }
    }

    pub fn func_addr(&self) -> (a: FuncAddr)
        ensures
            a == self.func_addr,
    {
        self.func_addr
    }

    pub fn inst_index(&self) -> (i: InstIndex)
        ensures
            i == self.inst_index,
    {
        self.inst_index
    }

    /// Moves to the next instruction of the same function.
    pub fn inc_inst_index(&mut self)
        requires
            old(self).inst_index.0 < usize::MAX,
        ensures
            *final(self) == (ProgramCounter {
                func_addr: old(self).func_addr,
                inst_index: InstIndex((old(self).inst_index.0 + 1) as usize),
            }),
    {
        self.inst_index = InstIndex(self.inst_index.0 + 1);
    }

    /// Moves to the first instruction of a loop's body.
    pub fn loop_jump(&mut self, start: InstIndex)
        ensures
            *final(self) == (ProgramCounter { func_addr: old(self).func_addr, inst_index: start }),
    {
        self.inst_index = start;
    }
}

/// The mark of a structured scope. `Loop` holds the index of the first
/// instruction of the loop's body; `Return` is the mark that every call
/// frame starts with.
#[derive(Clone, Copy, Debug, PartialEq, Eq, Structural)]
pub enum Label {
    Block,
    If,
    Loop(InstIndex),
    Return,
}

impl Label {
    pub fn new_loop(start: InstIndex) -> (l: Label)
        ensures
            l == Label::Loop(start),
    {
        Label::Loop(start)
    }
}

/// A call frame as plain values.
pub struct FrameView {
    pub func_addr: FuncAddr,
    pub locals: Seq<Value>,
    pub ret_pc: Option<ProgramCounter>,
}

/// One call: the function, its locals, and where to go on when it returns.
/// The frame of the entry function has nowhere to return to.
#[derive(Clone, Debug, PartialEq, Eq)]
pub struct CallFrame {
    pub func_addr: FuncAddr,
    pub locals: Vec<Value>,
    pub ret_pc: Option<ProgramCounter>,
}

impl View for CallFrame {
    type V = FrameView;

    open spec fn view(&self) -> FrameView {
        FrameView { func_addr: self.func_addr, locals: self.locals@, ret_pc: self.ret_pc }
    }
}

/// The locals of a new frame that has `local_len` of them: the arguments
/// first, then 32-bit zeros.
pub open spec fn padded_locals(args: Seq<Value>, local_len: nat) -> Seq<Value> {
    Seq::new(
        local_len,
        |i: int|
            if i < args.len() {
                args[i]
            } else {
                Value::I32(0)
            },
    )
}

/// The locals of a new frame of a function: the arguments first, then the
/// zero of each declared local.
pub open spec fn initial_locals(args: Seq<Value>, declared: Seq<ValueType>) -> Seq<Value> {
    args + declared.map_values(|ty: ValueType| Value::zero(ty))
}

impl CallFrame {
    /// A frame with `local_len` locals, the first of which hold `args`.
    pub fn new(
        func_addr: FuncAddr,
        local_len: usize,
        args: Vec<Value>,
        pc: Option<ProgramCounter>,
    ) -> (frame: CallFrame)
        requires
            args@.len() <= local_len,
        ensures
            frame@ == (FrameView {
                func_addr,
                locals: padded_locals(args@, local_len as nat),
                ret_pc: pc,
            }),
    {
        let mut locals = args;
        while locals.len() < local_len
            invariant
                args@.len() <= locals@.len() <= local_len,
                forall|i: int| 0 <= i < args@.len() ==> locals@[i] == args@[i],
                forall|i: int| args@.len() <= i < locals@.len() ==> locals@[i] == Value::I32(0),
            decreases local_len - locals@.len(),
        {
            locals.push(Value::I32(0));
        }
        assert(locals@ =~= padded_locals(args@, local_len as nat));
        CallFrame { func_addr, locals, ret_pc: pc }
    }

    /// The frame of a call of `func` with `args`.
    pub fn new_from_func(
        func_addr: FuncAddr,
        func: &DefinedFunctionInstance,
        args: Vec<Value>,
        pc: Option<ProgramCounter>,
    ) -> (frame: CallFrame)
        ensures
            frame@ == (FrameView {
                func_addr,
                locals: initial_locals(args@, func.locals@),
                ret_pc: pc,
            }),
    {
        let mut locals = args;
        let mut i: usize = 0;
        while i < func.locals.len()
            invariant
                i <= func.locals@.len(),
                locals@ == initial_locals(args@, func.locals@.take(i as int)),
            decreases func.locals@.len() - i,
        {
            locals.push(Value::default_for(func.locals[i]));
            assert(locals@ =~= initial_locals(args@, func.locals@.take(i as int + 1)));
            i += 1;
        }
        assert(func.locals@.take(i as int) =~= func.locals@);
        CallFrame { func_addr, locals, ret_pc: pc }
    }

    /// The value of a local; `None` where the frame has no such local.
    pub fn local(&self, index: usize) -> (r: Option<Value>)
        ensures
            r == if index < self@.locals.len() {
                Some(self@.locals[index as int])
            } else {
                None
            },
    {
        if index < self.locals.len() {
            Some(self.locals[index])
        } else {
            None
        }
    }
}

/// A stack entry as plain values.
pub enum Entry {
    Value(Value),
    Label(Label),
    Activation(FrameView),
}

/// A stack entry.
#[derive(Clone, Debug, PartialEq, Eq)]
pub enum StackValue {
    Value(Value),
    Label(Label),
    Activation(CallFrame),
}

impl View for StackValue {
    type V = Entry;

    open spec fn view(&self) -> Entry {
        match *self {
            StackValue::Value(v) => Entry::Value(v),
            StackValue::Label(l) => Entry::Label(l),
            StackValue::Activation(f) => Entry::Activation(f@),
        }
    }
}

impl StackValue {
    /// The value, if the entry is one.
    pub fn as_value(&self) -> (r: Option<Value>)
        ensures
            r == (match self@ {
                Entry::Value(v) => Some(v),
                _ => None,
            }),
    {
        match self {
            StackValue::Value(v) => Some(*v),
            _ => None,
        }
    }
}

/// The number of values that lie on top of the stack with nothing else
/// between them.
pub open spec fn top_values(s: Seq<Entry>) -> nat
    decreases s.len(),
{
    if s.len() > 0 && s.last() is Value {
        1 + top_values(s.drop_last())
    } else {
        0
    }
}

/// The index of the entry under the values on top; -1 where the values
/// reach the bottom.
pub open spec fn under_values(s: Seq<Entry>) -> int {
    s.len() - top_values(s) - 1
}

/// The innermost label of the current frame: the label under the values on
/// top, if a label lies there.
pub open spec fn innermost_label(s: Seq<Entry>) -> Option<Label> {
    let under = under_values(s);
    if under >= 0 && s[under] is Label {
        Some(s[under]->Label_0)
    } else {
        None
    }
}

/// The index of the current activation: the topmost one, or -1.
pub open spec fn frame_base(s: Seq<Entry>) -> int
    decreases s.len(),
{
    if s.len() == 0 {
        -1
    } else if s.last() is Activation {
        s.len() - 1
    } else {
        frame_base(s.drop_last())
    }
}

/// The current frame, if the stack holds an activation.
pub open spec fn current_frame(s: Seq<Entry>) -> Option<FrameView> {
    let base = frame_base(s);
    if base >= 0 {
        Some(s[base]->Activation_0)
    } else {
        None
    }
}

/// The labels above the current activation, outermost first.
pub open spec fn frame_labels(s: Seq<Entry>) -> Seq<Label>
    decreases s.len(),
{
    if s.len() == 0 {
        Seq::empty()
    } else {
        match s.last() {
            Entry::Activation(_) => Seq::empty(),
            Entry::Label(l) => frame_labels(s.drop_last()).push(l),
            Entry::Value(_) => frame_labels(s.drop_last()),
        }
    }
}

/// The length the stack has after `n` labels were popped, each with the
/// values above it; `None` where the current frame has fewer labels.
pub open spec fn unwound_len(s: Seq<Entry>, n: nat) -> Option<int>
    decreases n,
{
    if n == 0 {
        Some(s.len() as int)
    } else {
        let under = under_values(s);
        if under >= 0 && s[under] is Label {
            unwound_len(s.take(under), (n - 1) as nat)
        } else {
            None
        }
    }
}

/// The values of the stack, bottom first, without labels and activations.
pub open spec fn values_of(s: Seq<Entry>) -> Seq<Value>
    decreases s.len(),
{
    if s.len() == 0 {
        Seq::empty()
    } else {
        match s.last() {
            Entry::Value(v) => values_of(s.drop_last()).push(v),
            _ => values_of(s.drop_last()),
        }
    }
}

/// Whether the run is over: the current activation is the entry frame and
/// no label of it is left.
pub open spec fn over_top_level(s: Seq<Entry>) -> bool {
    match current_frame(s) {
        Some(frame) => frame.ret_pc is None && frame_labels(s).len() == 0,
        None => false,
    }
}

/// The values on top are values, and what lies under them is none.
pub proof fn lemma_top_values_bound(s: Seq<Entry>)
    ensures
        top_values(s) <= s.len(),
        forall|i: int| s.len() - top_values(s) <= i < s.len() ==> (#[trigger] s[i]) is Value,
        under_values(s) >= 0 ==> !(s[under_values(s)] is Value),
    decreases s.len(),
{
    if s.len() > 0 && s.last() is Value {
        lemma_top_values_bound(s.drop_last());
        assert forall|i: int| s.len() - top_values(s) <= i < s.len() implies
            (#[trigger] s[i]) is Value by {
            if i < s.len() - 1 {
                assert(s.drop_last()[i] is Value);
            }
        }
    }
}

/// The current activation is an activation, and none lies above it.
pub proof fn lemma_frame_base(s: Seq<Entry>)
    ensures
        -1 <= frame_base(s) < s.len(),
        frame_base(s) >= 0 ==> s[frame_base(s)] is Activation,
        forall|i: int| frame_base(s) < i < s.len() ==> !((#[trigger] s[i]) is Activation),
    decreases s.len(),
{
    if s.len() > 0 && !(s.last() is Activation) {
        lemma_frame_base(s.drop_last());
        assert forall|i: int| frame_base(s) < i < s.len() implies
            !((#[trigger] s[i]) is Activation) by {
            if i < s.len() - 1 {
                assert(s.drop_last()[i] == s[i]);
            }
        }
    }
}

/// Popping labels stays above the current activation.
pub proof fn lemma_unwound_len(s: Seq<Entry>, n: nat)
    ensures
        unwound_len(s, n) matches Some(len) ==> 0 <= len <= s.len() && frame_base(s) < len,
    decreases n,
{
    lemma_frame_base(s);
    if n > 0 {
        let under = under_values(s);
        lemma_top_values_bound(s);
        if under >= 0 && s[under] is Label {
            lemma_unwound_len(s.take(under), (n - 1) as nat);
            lemma_frame_base_take(s, under);
        }
    }
}

/// Cutting the stack above the current activation keeps it the current one.
pub proof fn lemma_frame_base_take(s: Seq<Entry>, len: int)
    requires
        0 <= len <= s.len(),
        forall|i: int| len <= i < s.len() ==> !((#[trigger] s[i]) is Activation),
    ensures
        frame_base(s.take(len)) == frame_base(s),
    decreases s.len() - len,
{
    if len < s.len() {
        assert(!(s[s.len() - 1] is Activation));
        assert(s.drop_last().take(len) =~= s.take(len));
        lemma_frame_base_take(s.drop_last(), len);
    } else {
        assert(s.take(len) =~= s);
    }
}

/// The `n` values on top of the stack, bottom first.
pub open spec fn values_on_top(s: Seq<Entry>, n: nat) -> Seq<Value> {
    Seq::new(n, |i: int| s[s.len() - n + i]->Value_0)
}

/// Values as stack entries.
pub open spec fn as_entries(values: Seq<Value>) -> Seq<Entry> {
    values.map_values(|v: Value| Entry::Value(v))
}

/// The stack.
pub struct Stack {
    stack: Vec<StackValue>,
}

impl View for Stack {
    type V = Seq<Entry>;

    open spec fn view(&self) -> Seq<Entry> {
        self.entries().map_values(|e: StackValue| e@)
    }
}

impl Default for Stack {
    fn default() -> (s: Stack)
        ensures
            s@ == Seq::<Entry>::empty(),
    {
        Stack::new()
    }
}

impl Stack {
    /// The entries, bottom first.
    pub closed spec fn entries(&self) -> Seq<StackValue> {
        self.stack@
    }

    /// An empty stack.
    pub fn new() -> (s: Stack)
        ensures
            s@ == Seq::<Entry>::empty(),
            s.entries() == Seq::<StackValue>::empty(),
    {
        let s = Stack { stack: Vec::new() };
        assert(s@ =~= Seq::<Entry>::empty());
        s
    }

    pub fn len(&self) -> (n: usize)
        ensures
            n == self@.len(),
    {
        self.stack.len()
    }

    fn push(&mut self, entry: StackValue)
        ensures
            final(self)@ == old(self)@.push(entry@),
            final(self).entries() == old(self).entries().push(entry),
    {
        self.stack.push(entry);
        assert(final(self)@ =~= old(self)@.push(entry@));
    }

    /// Cuts the stack down to its lowest `len` entries.
    pub fn truncate(&mut self, len: usize)
        requires
            len <= old(self)@.len(),
        ensures
            final(self)@ == old(self)@.take(len as int),
            final(self).entries() == old(self).entries().take(len as int),
    {
        self.stack.truncate(len);
        assert(final(self)@ =~= old(self)@.take(len as int));
    }

    pub fn push_value(&mut self, value: Value)
        ensures
            final(self)@ == old(self)@.push(Entry::Value(value)),
    {
        self.push(StackValue::Value(value));
    }

    /// Takes the value on top; leaves the stack as it is where no value
    /// lies on top.
    pub fn pop_value(&mut self) -> (r: Option<Value>)
        ensures
            match r {
                Some(v) => old(self)@.len() > 0 && old(self)@.last() == Entry::Value(v)
                    && final(self)@ == old(self)@.drop_last(),
                None => !(old(self)@.len() > 0 && old(self)@.last() is Value) && final(self)@
                    == old(self)@,
            },
    {
        let n = self.stack.len();
        if n == 0 {
            return None;
        }
        match self.stack[n - 1] {
            StackValue::Value(v) => {
                self.truncate(n - 1);
                Some(v)
            },
            _ => None,
        }
    }

    /// The value on top, if a value lies there.
    pub fn peek_last_value(&self) -> (r: Option<Value>)
        ensures
            r == if self@.len() > 0 && self@.last() is Value {
                Some(self@.last()->Value_0)
            } else {
                None
            },
    {
        let n = self.stack.len();
        if n == 0 {
            return None;
        }
        match self.stack[n - 1] {
            StackValue::Value(v) => Some(v),
            _ => None,
        }
    }

    /// The number of values on top with nothing else between them.
    pub fn top_values(&self) -> (k: usize)
        ensures
            k == top_values(self@),
            k <= self@.len(),
    {
        let n = self.stack.len();
        let mut i = n;
        assert(self@.take(i as int) =~= self@);
        while i > 0 && matches!(self.stack[i - 1], StackValue::Value(_))
            invariant
                i <= n,
                n == self@.len(),
                top_values(self@) == (n - i) + top_values(self@.take(i as int)),
            decreases i,
        {
            assert(self@.take(i as int).drop_last() =~= self@.take(i as int - 1));
            i -= 1;
        }
        n - i
    }

    pub fn push_label(&mut self, label: Label)
        ensures
            final(self)@ == old(self)@.push(Entry::Label(label)),
    {
        self.push(StackValue::Label(label));
    }

    /// Takes the label on top; leaves the stack as it is where no label
    /// lies on top.
    pub fn pop_label(&mut self) -> (r: Option<Label>)
        ensures
            match r {
                Some(l) => old(self)@.len() > 0 && old(self)@.last() == Entry::Label(l)
                    && final(self)@ == old(self)@.drop_last(),
                None => !(old(self)@.len() > 0 && old(self)@.last() is Label) && final(self)@
                    == old(self)@,
            },
    {
        let n = self.stack.len();
        if n == 0 {
            return None;
        }
        match self.stack[n - 1] {
            StackValue::Label(l) => {
                self.truncate(n - 1);
                Some(l)
            },
            _ => None,
        }
    }

    /// The innermost label of the current frame.
    pub fn peek_last_label(&self) -> (r: Option<Label>)
        ensures
            r == innermost_label(self@),
    {
        let k = self.top_values();
        let n = self.stack.len();
        if k < n {
            match self.stack[n - k - 1] {
                StackValue::Label(l) => Some(l),
                _ => None,
            }
        } else {
            None
        }
    }

    /// The number of values that lie on top of the lowest `len` entries.
    fn top_values_below(&self, len: usize) -> (k: usize)
        requires
            len <= self@.len(),
        ensures
            k == top_values(self@.take(len as int)),
            k <= len,
    {
        let ghost cut = self@.take(len as int);
        let mut i = len;
        assert(cut.take(i as int) =~= cut);
        while i > 0 && matches!(self.stack[i - 1], StackValue::Value(_))
            invariant
                i <= len <= self@.len(),
                cut == self@.take(len as int),
                top_values(cut) == (len - i) + top_values(cut.take(i as int)),
            decreases i,
        {
            assert(cut.take(i as int).drop_last() =~= cut.take(i as int - 1));
            i -= 1;
        }
        len - i
    }

    /// The innermost label of the stack cut down to its lowest `len`
    /// entries.
    pub fn innermost_label_below(&self, len: usize) -> (r: Option<Label>)
        requires
            len <= self@.len(),
        ensures
            r == innermost_label(self@.take(len as int)),
    {
        let k = self.top_values_below(len);
        if k < len {
            match self.stack[len - k - 1] {
                StackValue::Label(l) => Some(l),
                _ => None,
            }
        } else {
            None
        }
    }

    /// The length the stack has after `n` labels were popped, each with
    /// the values above it; `None` where the current frame has fewer
    /// labels.
    pub fn unwound_len(&self, n: usize) -> (r: Option<usize>)
        ensures
            match r {
                Some(len) => unwound_len(self@, n as nat) == Some(len as int) && len <= self@.len(),
                None => unwound_len(self@, n as nat) is None,
            },
    {
        let mut len = self.stack.len();
        let mut left = n;
        assert(self@.take(len as int) =~= self@);
        while left > 0
            invariant
                len <= self@.len(),
                unwound_len(self@, n as nat) == unwound_len(self@.take(len as int), left as nat),
            decreases left,
        {
            let k = self.top_values_below(len);
            if k == len {
                return None;
            }
            match self.stack[len - k - 1] {
                StackValue::Label(_) => {},
                _ => {
                    return None;
                },
            }
            proof {
                let cut = self@.take(len as int);
                assert(under_values(cut) == len - k - 1);
                assert(cut.take(len - k - 1) =~= self@.take(len - k - 1));
            }
            len = len - k - 1;
            left -= 1;
        }
        Some(len)
    }

    /// Pops `n` labels, each with the values above it. Where the current
    /// frame has fewer labels the stack stays as it is and the answer is
    /// `false`.
    pub fn pop_labels(&mut self, n: usize) -> (done: bool)
        ensures
            match unwound_len(old(self)@, n as nat) {
                Some(len) => done && final(self)@ == old(self)@.take(len),
                None => !done && final(self)@ == old(self)@,
            },
    {
        match self.unwound_len(n) {
            Some(len) => {
                self.truncate(len);
                true
            },
            None => false,
        }
    }

    /// The `n` values on top, bottom first.
    pub fn peek_values(&self, n: usize) -> (values: Vec<Value>)
        requires
            n <= top_values(self@),
        ensures
            values@ == values_on_top(self@, n as nat),
    {
        proof {
            lemma_top_values_bound(self@);
        }
        let len = self.stack.len();
        let mut values: Vec<Value> = Vec::new();
        let mut i: usize = 0;
        while i < n
            invariant
                i <= n <= len,
                len == self@.len(),
                values@.len() == i,
                forall|j: int| len - n <= j < len ==> (#[trigger] self@[j]) is Value,
                forall|j: int| 0 <= j < i ==> values@[j] == self@[len - n + j]->Value_0,
            decreases n - i,
        {
            assert(self@[len - n + i] is Value);
            match self.stack[len - n + i] {
                StackValue::Value(v) => {
                    values.push(v);
                },
                _ => {},
            }
            i += 1;
        }
        assert(values@ =~= values_on_top(self@, n as nat));
        values
    }

    /// Pushes the values, the first one lowest.
    pub fn push_values(&mut self, values: &Vec<Value>)
        ensures
            final(self)@ == old(self)@ + as_entries(values@),
    {
        let mut i: usize = 0;
        assert(self@ =~= old(self)@ + as_entries(values@.take(0)));
        while i < values.len()
            invariant
                i <= values@.len(),
                self@ == old(self)@ + as_entries(values@.take(i as int)),
            decreases values@.len() - i,
        {
            self.push_value(values[i]);
            assert(self@ =~= old(self)@ + as_entries(values@.take(i as int + 1)));
            i += 1;
        }
        assert(values@.take(i as int) =~= values@);
    }

    /// Starts a call: pushes the activation of `frame`.
    pub fn set_frame(&mut self, frame: CallFrame)
        ensures
            final(self)@ == old(self)@.push(Entry::Activation(frame@)),
    {
        self.push(StackValue::Activation(frame));
    }

    fn frame_index(&self) -> (r: Option<usize>)
        ensures
            match r {
                Some(i) => i == frame_base(self@) && i < self@.len()
                    && self@[i as int] is Activation,
                None => frame_base(self@) == -1,
            },
    {
        proof {
            lemma_frame_base(self@);
        }
        let mut i = self.stack.len();
        assert(self@.take(i as int) =~= self@);
        while i > 0
            invariant
                i <= self@.len(),
                frame_base(self@) == frame_base(self@.take(i as int)),
            decreases i,
        {
            assert(self@.take(i as int).drop_last() =~= self@.take(i as int - 1));
            match self.stack[i - 1] {
                StackValue::Activation(_) => {
                    return Some(i - 1);
                },
                _ => {},
            }
            i -= 1;
        }
        None
    }

    /// The frame of the current activation.
    pub fn current_frame(&self) -> (r: Option<&CallFrame>)
        ensures
            match r {
                Some(frame) => current_frame(self@) == Some(frame@),
                None => current_frame(self@) is None,
            },
    {
        match self.frame_index() {
            Some(i) => {
                match &self.stack[i] {
                    StackValue::Activation(frame) => Some(frame),
                    _ => None,
                }
            },
            None => None,
        }
    }

    /// The function of the current activation.
    pub fn current_func_addr(&self) -> (r: Option<FuncAddr>)
        ensures
            r == match current_frame(self@) {
                Some(frame) => Some(frame.func_addr),
                None => None,
            },
    {
        match self.current_frame() {
            Some(frame) => Some(frame.func_addr),
            None => None,
        }
    }

    /// Ends a call: removes the current activation and all that lies above
    /// it. Without an activation the stack stays as it is.
    pub fn pop_frame(&mut self) -> (done: bool)
        ensures
            done == (frame_base(old(self)@) >= 0),
            final(self)@ == if done {
                old(self)@.take(frame_base(old(self)@))
            } else {
                old(self)@
            },
    {
        match self.frame_index() {
            Some(i) => {
                self.truncate(i);
                true
            },
            None => false,
        }
    }

    /// The labels above the current activation, outermost first.
    pub fn current_frame_labels(&self) -> (labels: Vec<Label>)
        ensures
            labels@ == frame_labels(self@),
    {
        let base: usize = match self.frame_index() {
            Some(i) => {
                assert(i < self.stack.len());
                i + 1
            },
            None => 0,
        };
        proof {
            lemma_frame_base(self@);
        }
        let mut labels: Vec<Label> = Vec::new();
        let mut i = base;
        assert(frame_labels(self@.take(i as int)) =~= Seq::<Label>::empty()) by {
            if i > 0 {
                assert(self@.take(i as int).last() is Activation);
            }
        }
        while i < self.stack.len()
            invariant
                base <= i <= self@.len(),
                labels@ == frame_labels(self@.take(i as int)),
                forall|j: int| base <= j < self@.len() ==> !((#[trigger] self@[j]) is Activation),
            decreases self@.len() - i,
        {
            assert(self@.take(i as int + 1).drop_last() =~= self@.take(i as int));
            assert(self@.take(i as int + 1).last() == self@[i as int]);
            match self.stack[i] {
                StackValue::Label(l) => {
                    labels.push(l);
                },
                _ => {},
            }
            i += 1;
        }
        assert(self@.take(i as int) =~= self@);
        labels
    }

    /// The value of a local of the current frame.
    pub fn local(&self, index: usize) -> (r: Option<Value>)
        ensures
            r == match current_frame(self@) {
                Some(frame) => if index < frame.locals.len() {
                    Some(frame.locals[index as int])
                } else {
                    None
                },
                None => None,
            },
    {
        match self.current_frame() {
            Some(frame) => frame.local(index),
            None => None,
        }
    }

    /// Sets a local of the current frame. Where there is no frame, or no
    /// such local, the stack stays as it is and the answer is `false`.
    pub fn set_local(&mut self, index: usize, value: Value) -> (done: bool)
        ensures
            done == (current_frame(old(self)@) matches Some(frame) && index < frame.locals.len()),
            final(self)@ == if done {
                let frame = current_frame(old(self)@)->Some_0;
                old(self)@.update(
                    frame_base(old(self)@),
                    Entry::Activation(
                        FrameView { locals: frame.locals.update(index as int, value), ..frame },
                    ),
                )
            } else {
                old(self)@
            },
    {
        match self.frame_index() {
            Some(i) => {
                match &mut self.stack[i] {
                    StackValue::Activation(frame) => {
                        if index < frame.locals.len() {
                            frame.locals[index] = value;
                        } else {
                            return false;
                        }
                    },
                    _ => {
                        return false;
                    },
                }
                assert(final(self)@ =~= {
                    let frame = current_frame(old(self)@)->Some_0;
                    old(self)@.update(
                        frame_base(old(self)@),
                        Entry::Activation(
                            FrameView { locals: frame.locals.update(index as int, value), ..frame },
                        ),
                    )
                });
                true
            },
            None => false,
        }
    }

    /// Closes the innermost scope: removes the label under the values on
    /// top and keeps those values, in their order. Where no label lies
    /// there the stack stays as it is.
    pub fn close_label(&mut self) -> (r: Option<Label>)
        ensures
            r == innermost_label(old(self)@),
            final(self)@ == if r is Some {
                old(self)@.remove(under_values(old(self)@))
            } else {
                old(self)@
            },
    {
        let k = self.top_values();
        let n = self.stack.len();
        if k < n {
            match self.stack[n - k - 1] {
                StackValue::Label(l) => {
                    self.stack.remove(n - k - 1);
                    assert(final(self)@ =~= old(self)@.remove(under_values(old(self)@)));
                    Some(l)
                },
                _ => None,
            }
        } else {
            None
        }
    }

    /// Ends the current call with its results: removes the current
    /// activation and all above it, but keeps the `arity` values that lay
    /// on top. Where there is no activation, or fewer values on top, the
    /// stack stays as it is.
    pub fn return_frame(&mut self, arity: usize) -> (done: bool)
        ensures
            done == (frame_base(old(self)@) >= 0 && arity <= top_values(old(self)@)),
            final(self)@ == if done {
                old(self)@.take(frame_base(old(self)@)) + old(self)@.skip(old(self)@.len() - arity)
            } else {
                old(self)@
            },
    {
        let k = self.top_values();
        if arity > k {
            return false;
        }
        let base = match self.frame_index() {
            Some(i) => i,
            None => {
                return false;
            },
        };
        proof {
            lemma_frame_base(self@);
            lemma_top_values_bound(self@);
        }
        let n = self.stack.len();
        assert(base < n - arity) by {
            if base >= n - arity {
                assert(self@[base as int] is Value);
            }
        }
        let mut results = self.stack.split_off(n - arity);
        self.stack.truncate(base);
        self.stack.append(&mut results);
        assert(final(self)@ =~= old(self)@.take(frame_base(old(self)@)) + old(self)@.skip(
            old(self)@.len() - arity,
        ));
        true
    }

    /// Removes the entries on top for which `pred` holds, down to the first
    /// for which it does not, and hands them back, topmost first.
    pub fn pop_while<F: Fn(&StackValue) -> bool>(&mut self, pred: F) -> (popped: Vec<StackValue>)
        requires
            forall|e: &StackValue| pred.requires((e,)),
        ensures
            old(self).entries() == final(self).entries() + popped@.reverse(),
            forall|i: int| 0 <= i < popped@.len() ==> pred.ensures((&#[trigger] popped@[i],), true),
            final(self).entries().len() > 0 ==> pred.ensures(
                (&final(self).entries().last(),),
                false,
            ),
    {
        let mut popped: Vec<StackValue> = Vec::new();
        loop
            invariant
                forall|e: &StackValue| pred.requires((e,)),
                old(self).entries() == self.entries() + popped@.reverse(),
                forall|i: int|
                    0 <= i < popped@.len() ==> pred.ensures((&#[trigger] popped@[i],), true),
            decreases self.entries().len(),
        {
            let n = self.stack.len();
            if n == 0 {
                return popped;
            }
            let take = pred(&self.stack[n - 1]);
            if !take {
                return popped;
            }
            let ghost before = self.entries();
            let ghost popped_before = popped@;
            let e = self.stack.pop().unwrap();
            popped.push(e);
            assert(before + popped_before.reverse() =~= self.entries() + popped@.reverse());
        }
    }

    /// Whether the run is over: the current activation is the entry frame
    /// and no label of it is left.
    pub fn is_over_top_level(&self) -> (b: bool)
        ensures
            b == over_top_level(self@),
    {
        match self.current_frame() {
            Some(frame) => {
                if frame.ret_pc.is_some() {
                    return false;
                }
            },
            None => {
                return false;
            },
        }
        let labels = self.current_frame_labels();
        labels.len() == 0
    }

    /// The values on the stack, bottom first.
    pub fn values(&self) -> (values: Vec<Value>)
        ensures
            values@ == values_of(self@),
    {
        let mut values: Vec<Value> = Vec::new();
        let mut i: usize = 0;
        assert(values_of(self@.take(0)) =~= Seq::<Value>::empty());
        while i < self.stack.len()
            invariant
                i <= self@.len(),
                values@ == values_of(self@.take(i as int)),
            decreases self@.len() - i,
        {
            assert(self@.take(i as int + 1).drop_last() =~= self@.take(i as int));
            match self.stack[i] {
                StackValue::Value(v) => {
                    values.push(v);
                },
                _ => {},
            }
            i += 1;
        }
        assert(self@.take(i as int) =~= self@);
        values
    }
}

} // verus!
