//! What a module defines and what its segments write, as the module and
//! the store decide it: constant expressions, globals, tables, memories.
use crate::address::{FuncAddr, ModuleIndex};
use crate::global::GlobalInstance;
use crate::inst::{InitExpr, Instruction};
use crate::linker::LinkableCollection;
use crate::memory::{MemoryInstance, MemoryView};
use crate::module::{DataSegment, ElementSegment, GlobalEntry, ResizableLimits};
use crate::store::error::{Error, ErrorView};
use crate::table::{TableInstance, TableView};
use crate::text::decimal;
use crate::value::{offset_from_i32, offset_of, Value};
use vstd::prelude::*;
use vstd::string::*;

verus! {

/// The value of a constant expression in a module whose local slots for
/// globals are `slots`, the first `imported` of which it imports, `items`
/// being the globals of the store. The expression is one constant, or reads
/// an imported global that is immutable; any other is unsupported.
pub open spec fn const_value(
    items: Seq<GlobalInstance>,
    slots: Seq<usize>,
    imported: usize,
    expr: InitExpr,
) -> Result<Value, ErrorView> {
    if expr.code@.len() == 0 {
        Err(ErrorView::UnsupportedInitExpr)
    } else {
        match expr.code@[0] {
            Instruction::I32Const(v) => Ok(Value::I32(v)),
            Instruction::I64Const(v) => Ok(Value::I64(v)),
            Instruction::F32Const(v) => Ok(Value::F32(v)),
            Instruction::F64Const(v) => Ok(Value::F64(v)),
            Instruction::GetGlobal(i) => if i < imported && i < slots.len() && slots[i as int]
                < items.len() && !items[slots[i as int] as int].ty.mutable {
                Ok(items[slots[i as int] as int].value)
            } else {
                Err(ErrorView::UnsupportedInitExpr)
            },
            _ => Err(ErrorView::UnsupportedInitExpr),
        }
    }
}

/// The offset that a constant expression places a segment at: its value,
/// which must be a 32-bit integer, read as unsigned.
pub open spec fn offset_value(
    items: Seq<GlobalInstance>,
    slots: Seq<usize>,
    imported: usize,
    expr: InitExpr,
) -> Result<usize, ErrorView> {
    match const_value(items, slots, imported, expr) {
        Err(e) => Err(e),
        Ok(Value::I32(v)) => Ok(offset_of(v) as usize),
        Ok(_) => Err(ErrorView::UnsupportedInitExpr),
    }
}

/// Evaluates a constant expression for a module that sees the globals of
/// `globals`, the first `imported` of which it imports.
pub fn eval_const_expr(
    init_expr: &InitExpr,
    globals: &LinkableCollection<GlobalInstance>,
    module_index: ModuleIndex,
    imported: usize,
) -> (r: Result<Value, Error>)
    ensures
        match const_value(globals@.items, globals@.slots(module_index), imported, *init_expr) {
            Ok(v) => r == Ok::<Value, Error>(v),
            Err(e) => r is Err && r->Err_0@ == e,
        },
{
    if init_expr.code.len() == 0 {
        return Err(Error::UnsupportedInitExpr);
    }
    match &init_expr.code[0] {
        Instruction::I32Const(v) => Ok(Value::I32(*v)),
        Instruction::I64Const(v) => Ok(Value::I64(*v)),
        Instruction::F32Const(v) => Ok(Value::F32(*v)),
        Instruction::F64Const(v) => Ok(Value::F64(*v)),
        Instruction::GetGlobal(i) => match globals.resolve(module_index, *i as usize) {
            Some(handle) => {
                if (*i as usize) < imported && handle < globals.len() {
                    let global = globals.get_global(handle);
                    if !global.is_mutable() {
                        return Ok(global.value());
                    }
                }
                Err(Error::UnsupportedInitExpr)
            },
            None => Err(Error::UnsupportedInitExpr),
        },
        _ => Err(Error::UnsupportedInitExpr),
    }
}

/// Evaluates the constant expression that places a segment.
pub fn eval_offset(
    init_expr: &InitExpr,
    globals: &LinkableCollection<GlobalInstance>,
    module_index: ModuleIndex,
    imported: usize,
) -> (r: Result<usize, Error>)
    ensures
        match offset_value(globals@.items, globals@.slots(module_index), imported, *init_expr) {
            Ok(v) => r == Ok::<usize, Error>(v),
            Err(e) => r is Err && r->Err_0@ == e,
        },
{
    match eval_const_expr(init_expr, globals, module_index, imported) {
        Ok(Value::I32(v)) => Ok(offset_from_i32(v)),
        Ok(_) => Err(Error::UnsupportedInitExpr),
        Err(e) => Err(e),
    }
}

/// The first type index in the list that a type section of `types` entries
/// does not have.
pub open spec fn unknown_type(functions: Seq<u32>, types: nat) -> Option<u32>
    decreases functions.len(),
{
    if functions.len() == 0 {
        None
    } else {
        match unknown_type(functions.drop_last(), types) {
            Some(t) => Some(t),
            None => if functions.last() >= types {
                Some(functions.last())
            } else {
                None
            },
        }
    }
}

/// The name of the function that a module defines as item number `n` of
/// the store.
pub open spec fn defined_name(n: nat) -> Seq<char> {
    "<module defined func #"@ + decimal(n) + seq!['>']
}

/// The `count` handles from `from` on, in order.
pub open spec fn handle_range(from: nat, count: nat) -> Seq<usize> {
    Seq::new(count, |i: int| (from + i) as usize)
}

/// The globals that a module defines: each with the value of its
/// initialiser; the error of the first initialiser that is unsupported.
pub open spec fn global_instances(
    items: Seq<GlobalInstance>,
    slots: Seq<usize>,
    imported: usize,
    entries: Seq<GlobalEntry>,
) -> Result<Seq<GlobalInstance>, ErrorView>
    decreases entries.len(),
{
    if entries.len() == 0 {
        Ok(Seq::empty())
    } else {
        match global_instances(items, slots, imported, entries.drop_last()) {
            Err(e) => Err(e),
            Ok(instances) => match const_value(items, slots, imported, entries.last().init_expr) {
                Err(e) => Err(e),
                Ok(value) => Ok(
                    instances.push(GlobalInstance { value, ty: entries.last().global_type }),
                ),
            },
        }
    }
}

/// An initialiser that fails makes the whole list fail, with its error.
pub proof fn lemma_global_instances_fail(
    items: Seq<GlobalInstance>,
    slots: Seq<usize>,
    imported: usize,
    entries: Seq<GlobalEntry>,
    upto: int,
)
    requires
        0 <= upto <= entries.len(),
        global_instances(items, slots, imported, entries.take(upto)) is Err,
    ensures
        global_instances(items, slots, imported, entries) == global_instances(
            items,
            slots,
            imported,
            entries.take(upto),
        ),
    decreases entries.len() - upto,
{
    if upto < entries.len() {
        assert(entries.take(upto + 1).drop_last() =~= entries.take(upto));
        lemma_global_instances_fail(items, slots, imported, entries, upto + 1);
    } else {
        assert(entries.take(upto) =~= entries);
    }
}

/// The globals that the offsets of segments are evaluated with.
pub struct OffsetEnv {
    pub items: Seq<GlobalInstance>,
    pub slots: Seq<usize>,
    pub imported: usize,
}

/// The tables of a list as plain values.
pub open spec fn table_views(items: Seq<TableInstance>) -> Seq<TableView> {
    items.map_values(|t: TableInstance| t@)
}

/// The memories of a list as plain values.
pub open spec fn memory_views(items: Seq<MemoryInstance>) -> Seq<MemoryView> {
    items.map_values(|m: MemoryInstance| m@)
}

/// The greatest size of a table or memory, as declared.
pub open spec fn declared_max(limits: ResizableLimits) -> Option<usize> {
    match limits.maximum {
        Some(max) => Some(max as usize),
        None => None,
    }
}

/// The table that a module defines with the given limits: as many empty
/// slots as the least size says.
pub open spec fn new_table(limits: ResizableLimits) -> TableView {
    TableView {
        elements: Seq::new(limits.initial as nat, |i: int| None::<FuncAddr>),
        initial: limits.initial as usize,
        max: declared_max(limits),
    }
}

/// The memory that a module defines with the given limits: as many pages
/// of zeros as the least size says.
pub open spec fn new_memory(limits: ResizableLimits) -> MemoryView {
    MemoryView {
        bytes: Seq::new((limits.initial * crate::memory::PAGE_SIZE) as nat, |i: int| 0u8),
        initial: limits.initial as usize,
        max: declared_max(limits),
    }
}

/// The functions that an element segment of a module names.
pub open spec fn members_of(module: ModuleIndex, members: Seq<u32>) -> Seq<FuncAddr> {
    members.map_values(|i: u32| FuncAddr(module, i as usize))
}

/// The functions that an element segment of a module names.
pub(crate) fn member_addrs(module: ModuleIndex, members: &Vec<u32>) -> (addrs: Vec<FuncAddr>)
    ensures
        addrs@ == members_of(module, members@),
{
    let mut addrs: Vec<FuncAddr> = Vec::new();
    let mut i: usize = 0;
    while i < members.len()
        invariant
            i <= members@.len(),
            addrs@ == members_of(module, members@.take(i as int)),
        decreases members@.len() - i,
    {
        addrs.push(FuncAddr::new_unsafe(module, members[i] as usize));
        assert(addrs@ =~= members_of(module, members@.take(i as int + 1)));
        i += 1;
    }
    assert(members@.take(i as int) =~= members@);
    addrs
}

/// Functions to be written into the table with a handle.
pub struct TableWrite {
    pub handle: usize,
    pub offset: usize,
    pub data: Vec<FuncAddr>,
}

/// A write into a table as plain values.
pub struct TableWriteView {
    pub handle: usize,
    pub offset: usize,
    pub data: Seq<FuncAddr>,
}

impl View for TableWrite {
    type V = TableWriteView;

    open spec fn view(&self) -> TableWriteView {
        TableWriteView { handle: self.handle, offset: self.offset, data: self.data@ }
    }
}

/// The writes of a list as plain values.
pub open spec fn table_write_views(writes: Seq<TableWrite>) -> Seq<TableWriteView> {
    writes.map_values(|w: TableWrite| w@)
}

/// The writes of the element segments that target the table which a module
/// sees at the local index `index` and which has the handle `handle`, in
/// the order of the segments; the error of the first that has an
/// unsupported offset or overruns the table.
pub open spec fn table_segment_writes(
    tables: Seq<TableView>,
    env: OffsetEnv,
    module: ModuleIndex,
    index: int,
    handle: usize,
    elements: Seq<ElementSegment>,
) -> Result<Seq<TableWriteView>, ErrorView>
    decreases elements.len(),
{
    if elements.len() == 0 {
        Ok(Seq::empty())
    } else {
        match table_segment_writes(tables, env, module, index, handle, elements.drop_last()) {
            Err(e) => Err(e),
            Ok(writes) => {
                let segment = elements.last();
                if segment.index != index {
                    Ok(writes)
                } else {
                    match offset_value(env.items, env.slots, env.imported, segment.offset) {
                        Err(e) => Err(e),
                        Ok(offset) => if tables[handle as int].fits(
                            offset as int,
                            segment.members@.len() as int,
                        ) {
                            Ok(
                                writes.push(
                                    TableWriteView {
                                        handle,
                                        offset,
                                        data: members_of(module, segment.members@),
                                    },
                                ),
                            )
                        } else {
                            Err(ErrorView::InvalidElementSegments(crate::table::Error::OutOfBounds))
                        },
                    }
                }
            },
        }
    }
}

/// The writes of the element segments of a module, table by table in the
/// order of the first `upto` local slots `slots`, and for each table in
/// the order of the segments. A segment that targets no table of the
/// module is passed over.
pub open spec fn element_writes(
    tables: Seq<TableView>,
    slots: Seq<usize>,
    env: OffsetEnv,
    module: ModuleIndex,
    elements: Seq<ElementSegment>,
    upto: nat,
) -> Result<Seq<TableWriteView>, ErrorView>
    decreases upto,
{
    if upto == 0 {
        Ok(Seq::empty())
    } else {
        match element_writes(tables, slots, env, module, elements, (upto - 1) as nat) {
            Err(e) => Err(e),
            Ok(writes) => match table_segment_writes(
                tables,
                env,
                module,
                upto - 1,
                slots[upto - 1],
                elements,
            ) {
                Err(e) => Err(e),
                Ok(more) => Ok(writes + more),
            },
        }
    }
}

/// Whether every write goes to a table of the list and fits it.
pub open spec fn table_writes_fit(tables: Seq<TableView>, writes: Seq<TableWriteView>) -> bool {
    forall|k: int|
        0 <= k < writes.len() ==> (#[trigger] writes[k]).handle < tables.len()
            && tables[writes[k].handle as int].fits(
            writes[k].offset as int,
            writes[k].data.len() as int,
        )
}

/// The tables after the writes were made in their order.
pub open spec fn tables_written(tables: Seq<TableView>, writes: Seq<TableWriteView>) -> Seq<
    TableView,
>
    decreases writes.len(),
{
    if writes.len() == 0 {
        tables
    } else {
        let before = tables_written(tables, writes.drop_last());
        let w = writes.last();
        before.update(
            w.handle as int,
            TableView {
                elements: before[w.handle as int].initialized(w.offset as int, w.data),
                ..before[w.handle as int]
            },
        )
    }
}

/// A segment that fails makes the whole list fail, with its error.
pub proof fn lemma_table_segment_writes_fail(
    tables: Seq<TableView>,
    env: OffsetEnv,
    module: ModuleIndex,
    index: int,
    handle: usize,
    elements: Seq<ElementSegment>,
    upto: int,
)
    requires
        0 <= upto <= elements.len(),
        table_segment_writes(tables, env, module, index, handle, elements.take(upto)) is Err,
    ensures
        table_segment_writes(tables, env, module, index, handle, elements)
            == table_segment_writes(tables, env, module, index, handle, elements.take(upto)),
    decreases elements.len() - upto,
{
    if upto < elements.len() {
        assert(elements.take(upto + 1).drop_last() =~= elements.take(upto));
        lemma_table_segment_writes_fail(tables, env, module, index, handle, elements, upto + 1);
    } else {
        assert(elements.take(upto) =~= elements);
    }
}

/// A table whose segments fail makes the whole module fail, with their
/// error.
pub proof fn lemma_element_writes_fail(
    tables: Seq<TableView>,
    slots: Seq<usize>,
    env: OffsetEnv,
    module: ModuleIndex,
    elements: Seq<ElementSegment>,
    upto: nat,
    all: nat,
)
    requires
        upto <= all,
        element_writes(tables, slots, env, module, elements, upto) is Err,
    ensures
        element_writes(tables, slots, env, module, elements, all) == element_writes(
            tables,
            slots,
            env,
            module,
            elements,
            upto,
        ),
    decreases all - upto,
{
    if upto < all {
        lemma_element_writes_fail(tables, slots, env, module, elements, upto, (all - 1) as nat);
    }
}

/// Bytes to be written into the memory with a handle: those of the data
/// segment at the index `segment`.
#[derive(Clone, Copy, Debug, PartialEq, Eq, Structural)]
pub struct MemoryWrite {
    pub handle: usize,
    pub offset: usize,
    pub segment: usize,
}

/// A write into a memory as plain values.
pub struct MemoryWriteView {
    pub handle: usize,
    pub offset: usize,
    pub data: Seq<u8>,
}

/// The writes of a list as plain values, the bytes being those of the data
/// segments that the writes name.
pub open spec fn memory_write_views(writes: Seq<MemoryWrite>, data: Seq<DataSegment>) -> Seq<
    MemoryWriteView,
> {
    writes.map_values(
        |w: MemoryWrite|
            MemoryWriteView {
                handle: w.handle,
                offset: w.offset,
                data: data[w.segment as int].value@,
            },
    )
}

/// The writes of the data segments that target the memory which a module
/// sees at the local index `index` and which has the handle `handle`; see
/// `table_segment_writes`.
pub open spec fn memory_segment_writes(
    mems: Seq<MemoryView>,
    env: OffsetEnv,
    index: int,
    handle: usize,
    data: Seq<DataSegment>,
) -> Result<Seq<MemoryWriteView>, ErrorView>
    decreases data.len(),
{
    if data.len() == 0 {
        Ok(Seq::empty())
    } else {
        match memory_segment_writes(mems, env, index, handle, data.drop_last()) {
            Err(e) => Err(e),
            Ok(writes) => {
                let segment = data.last();
                if segment.index != index {
                    Ok(writes)
                } else {
                    match offset_value(env.items, env.slots, env.imported, segment.offset) {
                        Err(e) => Err(e),
                        Ok(offset) => if mems[handle as int].fits(
                            offset as int,
                            segment.value@.len() as int,
                        ) {
                            Ok(writes.push(MemoryWriteView { handle, offset, data: segment.value@ }))
                        } else {
                            Err(ErrorView::InvalidDataSegments(crate::memory::Error::OutOfBounds))
                        },
                    }
                }
            },
        }
    }
}

/// The writes of the data segments of a module; see `element_writes`.
pub open spec fn data_writes(
    mems: Seq<MemoryView>,
    slots: Seq<usize>,
    env: OffsetEnv,
    data: Seq<DataSegment>,
    upto: nat,
) -> Result<Seq<MemoryWriteView>, ErrorView>
    decreases upto,
{
    if upto == 0 {
        Ok(Seq::empty())
    } else {
        match data_writes(mems, slots, env, data, (upto - 1) as nat) {
            Err(e) => Err(e),
            Ok(writes) => match memory_segment_writes(mems, env, upto - 1, slots[upto - 1], data) {
                Err(e) => Err(e),
                Ok(more) => Ok(writes + more),
            },
        }
    }
}

/// Whether every write goes to a memory of the list and fits it.
pub open spec fn memory_writes_fit(mems: Seq<MemoryView>, writes: Seq<MemoryWriteView>) -> bool {
    forall|k: int|
        0 <= k < writes.len() ==> (#[trigger] writes[k]).handle < mems.len()
            && mems[writes[k].handle as int].fits(
            writes[k].offset as int,
            writes[k].data.len() as int,
        )
}

/// The memories after the writes were made in their order.
pub open spec fn memories_written(mems: Seq<MemoryView>, writes: Seq<MemoryWriteView>) -> Seq<
    MemoryView,
>
    decreases writes.len(),
{
    if writes.len() == 0 {
        mems
    } else {
        let before = memories_written(mems, writes.drop_last());
        let w = writes.last();
        before.update(
            w.handle as int,
            MemoryView {
                bytes: before[w.handle as int].written(w.offset as int, w.data),
                ..before[w.handle as int]
            },
        )
    }
}

/// A segment that fails makes the whole list fail, with its error.
pub proof fn lemma_memory_segment_writes_fail(
    mems: Seq<MemoryView>,
    env: OffsetEnv,
    index: int,
    handle: usize,
    data: Seq<DataSegment>,
    upto: int,
)
    requires
        0 <= upto <= data.len(),
        memory_segment_writes(mems, env, index, handle, data.take(upto)) is Err,
    ensures
        memory_segment_writes(mems, env, index, handle, data) == memory_segment_writes(
            mems,
            env,
            index,
            handle,
            data.take(upto),
        ),
    decreases data.len() - upto,
{
    if upto < data.len() {
        assert(data.take(upto + 1).drop_last() =~= data.take(upto));
        lemma_memory_segment_writes_fail(mems, env, index, handle, data, upto + 1);
    } else {
        assert(data.take(upto) =~= data);
    }
}

/// A memory whose segments fail makes the whole module fail, with their
/// error.
pub proof fn lemma_data_writes_fail(
    mems: Seq<MemoryView>,
    slots: Seq<usize>,
    env: OffsetEnv,
    data: Seq<DataSegment>,
    upto: nat,
    all: nat,
)
    requires
        upto <= all,
        data_writes(mems, slots, env, data, upto) is Err,
    ensures
        data_writes(mems, slots, env, data, all) == data_writes(mems, slots, env, data, upto),
    decreases all - upto,
{
    if upto < all {
        lemma_data_writes_fail(mems, slots, env, data, upto, (all - 1) as nat);
    }
}

} // verus!
