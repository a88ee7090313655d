//! Function types and function instances.
use crate::address::ModuleIndex;
use crate::context::EmbedContexts;
use crate::inst::Instruction;
use crate::value::{value_type_text, Value, ValueType};
use vstd::prelude::*;
use vstd::string::*;

verus! {

/// A signature: the parameter types in order, and at most one result.
#[derive(Clone, Debug, PartialEq, Eq)]
pub struct FuncType {
    pub params: Vec<ValueType>,
    pub result: Option<ValueType>,
}

/// A signature as plain values; two signatures are the same where these are
/// equal.
pub struct FuncTypeView {
    pub params: Seq<ValueType>,
    pub result: Option<ValueType>,
}

impl FuncTypeView {
    /// The number of values a call hands back: none or one.
    pub open spec fn result_arity(self) -> nat {
        if self.result is Some {
            1
        } else {
            0
        }
    }

    /// Whether `values` are what a function of this type may hand back:
    /// as many as it declares, each of the declared type.
    pub open spec fn accepts_results(self, values: Seq<Value>) -> bool {
        match self.result {
            Some(ty) => values.len() == 1 && values[0].spec_value_type() == ty,
            None => values.len() == 0,
        }
    }
}

/// Value types in words, with commas between them.
pub open spec fn types_text(types: Seq<ValueType>) -> Seq<char>
    decreases types.len(),
{
    if types.len() == 0 {
        Seq::empty()
    } else if types.len() == 1 {
        value_type_text(types[0])
    } else {
        types_text(types.drop_last()) + ", "@ + value_type_text(types.last())
    }
}

/// A signature in words: the parameter types in brackets, an arrow, and
/// the result type or empty brackets.
pub open spec fn func_type_text(ty: FuncTypeView) -> Seq<char> {
    "("@ + types_text(ty.params) + ") -> "@ + match ty.result {
        Some(result) => value_type_text(result),
        None => "()"@,
    }
}

impl View for FuncType {
    type V = FuncTypeView;

    open spec fn view(&self) -> FuncTypeView {
        FuncTypeView { params: self.params@, result: self.result }
    }
}

impl FuncType {
    pub fn new(params: Vec<ValueType>, result: Option<ValueType>) -> (ty: FuncType)
        ensures
            ty.params == params,
            ty.result == result,
    {
        FuncType { params, result }
    }

    pub fn params(&self) -> (p: &Vec<ValueType>)
        ensures
            p@ == self@.params,
    {
        &self.params
    }

    pub fn return_type(&self) -> (r: Option<ValueType>)
        ensures
            r == self@.result,
    {
        self.result
    }

    /// Structural equality: the same parameter types in the same order, and
    /// the same result.
    pub fn equals(&self, other: &FuncType) -> (b: bool)
        ensures
            b == (self@ == other@),
    {
        if self.result != other.result {
            return false;
        }
        if self.params.len() != other.params.len() {
            return false;
        }
        let mut i: usize = 0;
        while i < self.params.len()
            invariant
                i <= self.params@.len(),
                self.params@.len() == other.params@.len(),
                forall|j: int| 0 <= j < i ==> self.params@[j] == other.params@[j],
            decreases self.params@.len() - i,
        {
            if self.params[i] != other.params[i] {
                return false;
            }
            i += 1;
        }
        assert(self.params@ =~= other.params@);
        true
    }

    /// An equal signature of its own.
    pub fn duplicate(&self) -> (copy: FuncType)
        ensures
            copy@ == self@,
    {
        let mut params: Vec<ValueType> = Vec::new();
        let mut i: usize = 0;
        while i < self.params.len()
            invariant
                i <= self.params@.len(),
                params@ == self.params@.take(i as int),
            decreases self.params@.len() - i,
        {
            params.push(self.params[i]);
            assert(self.params@.take(i as int).push(self.params@[i as int])
                =~= self.params@.take(i as int + 1));
            i += 1;
        }
        assert(self.params@.take(i as int) =~= self.params@);
        FuncType { params, result: self.result }
    }

    /// Appends the signature in words to `out`.
    pub fn push_text(&self, out: &mut String)
        ensures
            final(out)@ == old(out)@ + func_type_text(self@),
    {
        out.append("(");
        let ghost opened = out@;
        let mut i: usize = 0;
        assert(out@ =~= opened + types_text(self.params@.take(0)));
        while i < self.params.len()
            invariant
                i <= self.params@.len(),
                out@ == opened + types_text(self.params@.take(i as int)),
            decreases self.params@.len() - i,
        {
            proof {
                assert(self.params@.take(i as int + 1).drop_last() =~= self.params@.take(i as int));
            }
            if i > 0 {
                out.append(", ");
            }
            self.params[i].push_text(out);
            assert(out@ =~= opened + types_text(self.params@.take(i as int + 1)));
            i += 1;
        }
        assert(self.params@.take(i as int) =~= self.params@);
        out.append(") -> ");
        match self.result {
            Some(result) => result.push_text(out),
            None => out.append("()"),
        }
        assert(final(out)@ =~= old(out)@ + func_type_text(self@));
    }

    /// Whether `values` are what a function of this type may hand back.
    pub fn accepts_results(&self, values: &Vec<Value>) -> (b: bool)
        ensures
            b == self@.accepts_results(values@),
    {
        match self.result {
            Some(ty) => values.len() == 1 && values[0].value_type() == ty,
            None => values.len() == 0,
        }
    }
}

/// A function that the embedder supplies. It gets the arguments in the
/// order of the parameters, and the contexts that the embedder stashed in
/// the store, and hands back the results, or a message where it fails. It
/// cannot step the executor that called it.
pub trait HostFunction<C> {
    fn call(&self, args: &Vec<Value>, contexts: &EmbedContexts<C>) -> Result<Vec<Value>, String>;
}

/// A function that a module defines.
pub struct DefinedFunctionInstance {
    pub name: String,
    pub ty: FuncType,
    pub module_index: ModuleIndex,
    pub locals: Vec<ValueType>,
    pub code: Vec<Instruction>,
}

impl DefinedFunctionInstance {
    pub fn new(
        name: String,
        ty: FuncType,
        module_index: ModuleIndex,
        locals: Vec<ValueType>,
        code: Vec<Instruction>,
    ) -> (f: Self)
        ensures
            f.name == name,
            f.ty == ty,
            f.module_index == module_index,
            f.locals == locals,
            f.code == code,
    {
        DefinedFunctionInstance { name, ty, module_index, locals, code }
    }

    pub fn name(&self) -> (n: &String)
        ensures
            *n == self.name,
    {
        &self.name
    }

    pub fn ty(&self) -> (ty: &FuncType)
        ensures
            *ty == self.ty,
    {
        &self.ty
    }

    pub fn module_index(&self) -> (m: ModuleIndex)
        ensures
            m == self.module_index,
    {
        self.module_index
    }

    pub fn code(&self) -> (code: &Vec<Instruction>)
        ensures
            *code == self.code,
    {
        &self.code
    }

    /// The instruction at an index; `None` past the end of the body.
    pub fn inst(&self, index: usize) -> (r: Option<&Instruction>)
        ensures
            r == if index < self.code@.len() {
                Some(&self.code@[index as int])
            } else {
                None
            },
    {
        if index < self.code.len() {
            Some(&self.code[index])
        } else {
            None
        }
    }
}

/// A function that the embedder registered under a module and field name.
#[verifier::reject_recursive_types(C)]
pub struct HostFunctionInstance<C> {
    pub ty: FuncType,
    pub module_name: String,
    pub field_name: String,
    pub code: Box<dyn HostFunction<C>>,
}

/// A host function as plain values: all of it but what it calls.
pub struct HostFunctionView {
    pub ty: FuncTypeView,
    pub module_name: Seq<char>,
    pub field_name: Seq<char>,
}

impl<C> View for HostFunctionInstance<C> {
    type V = HostFunctionView;

    open spec fn view(&self) -> HostFunctionView {
        HostFunctionView {
            ty: self.ty@,
            module_name: self.module_name@,
            field_name: self.field_name@,
        }
    }
}

impl<C> HostFunctionInstance<C> {
    pub fn new(
        ty: FuncType,
        module_name: String,
        field_name: String,
        code: Box<dyn HostFunction<C>>,
    ) -> (f: Self)
        ensures
            f.ty == ty,
            f.module_name == module_name,
            f.field_name == field_name,
    {
        HostFunctionInstance { ty, module_name, field_name, code }
    }

    pub fn ty(&self) -> (ty: &FuncType)
        ensures
            *ty == self.ty,
    {
        &self.ty
    }

    pub fn module_name(&self) -> (n: &String)
        ensures
            *n == self.module_name,
    {
        &self.module_name
    }

    pub fn field_name(&self) -> (n: &String)
        ensures
            *n == self.field_name,
    {
        &self.field_name
    }
}

/// A function of the store.
#[verifier::reject_recursive_types(C)]
pub enum FunctionInstance<C> {
    Defined(DefinedFunctionInstance),
    Host(HostFunctionInstance<C>),
}

/// A function of the store as plain values.
pub enum FunctionView {
    Defined(DefinedFunctionInstance),
    Host(HostFunctionView),
}

impl FunctionView {
    /// The signature of the function.
    pub open spec fn ty(self) -> FuncTypeView {
        match self {
            FunctionView::Defined(f) => f.ty@,
            FunctionView::Host(f) => f.ty,
        }
    }
}

impl<C> View for FunctionInstance<C> {
    type V = FunctionView;

    open spec fn view(&self) -> FunctionView {
        match self {
            FunctionInstance::Defined(f) => FunctionView::Defined(*f),
            FunctionInstance::Host(f) => FunctionView::Host(f@),
        }
    }
}

impl<C> FunctionInstance<C> {
    /// The signature of the function.
    pub open spec fn spec_ty(&self) -> FuncType {
        match self {
            FunctionInstance::Defined(f) => f.ty,
            FunctionInstance::Host(f) => f.ty,
        }
    }

    /// The signature of the function.
    pub fn ty(&self) -> (ty: &FuncType)
        ensures
            *ty == self.spec_ty(),
    {
        match self {
            FunctionInstance::Defined(f) => &f.ty,
            FunctionInstance::Host(f) => &f.ty,
        }
    }

    /// The function, if a module defines it.
    pub fn defined(&self) -> (r: Option<&DefinedFunctionInstance>)
        ensures
            match *self {
                FunctionInstance::Defined(f) => r == Some(&f),
                FunctionInstance::Host(_) => r is None,
            },
    {
        match self {
            FunctionInstance::Defined(f) => Some(f),
            FunctionInstance::Host(_) => None,
        }
    }

    /// The function, if the embedder supplies it.
    pub fn host(&self) -> (r: Option<&HostFunctionInstance<C>>)
        ensures
            match *self {
                FunctionInstance::Defined(_) => r is None,
                FunctionInstance::Host(f) => r == Some(&f),
            },
    {
        match self {
            FunctionInstance::Defined(_) => None,
            FunctionInstance::Host(f) => Some(f),
        }
    }
}

} // verus!
