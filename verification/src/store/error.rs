//! Why an instantiation fails, and the errors in words.
use crate::executor::{trap_text, ExecError, Trap};
use crate::func::{func_type_text, FuncType, FuncTypeView};
use crate::module::{DefinedModuleError, ExportKind, HostExport, HostModuleError, Internal};
use crate::text::{decimal, push_decimal};
use crate::value::{value_type_text, ValueType};
use vstd::prelude::*;
use vstd::string::*;

verus! {

/// Why a module was not instantiated.
#[derive(Clone, Debug, PartialEq, Eq)]
pub enum Error {
    /// An element segment does not fit its table.
    InvalidElementSegments(crate::table::Error),
    /// A data segment does not fit its memory.
    InvalidDataSegments(crate::memory::Error),
    /// A host module exports the field as another kind of thing.
    InvalidHostImport(HostModuleError),
    /// A module exports the field as another kind of thing.
    InvalidImport(DefinedModuleError),
    /// A type index that the type section does not have.
    UnknownType(u32),
    /// No such function, by module and field name.
    UndefinedFunction(String, String),
    /// No such memory, by module and field name.
    UndefinedMemory(String, String),
    /// No such table, by module and field name.
    UndefinedTable(String, String),
    /// No such global, by module and field name.
    UndefinedGlobal(String, String),
    /// The start function trapped.
    FailedEntryFunction(ExecError),
    /// An imported function has another signature than declared: the field
    /// name, the declared signature, the signature found.
    IncompatibleImportFuncType(String, FuncType, FuncType),
    /// An imported global holds another type than declared: the declared
    /// type, the type found.
    IncompatibleImportGlobalType(ValueType, ValueType),
    IncompatibleImportGlobalMutability,
    IncompatibleImportTableType,
    IncompatibleImportMemoryType,
    /// A constant expression that is none of the supported forms.
    UnsupportedInitExpr,
}

/// An instantiation error as plain values.
pub enum ErrorView {
    InvalidElementSegments(crate::table::Error),
    InvalidDataSegments(crate::memory::Error),
    InvalidHostImport(HostModuleError),
    InvalidImport(DefinedModuleError),
    UnknownType(u32),
    UndefinedFunction(Seq<char>, Seq<char>),
    UndefinedMemory(Seq<char>, Seq<char>),
    UndefinedTable(Seq<char>, Seq<char>),
    UndefinedGlobal(Seq<char>, Seq<char>),
    FailedEntryFunction(Trap),
    IncompatibleImportFuncType(Seq<char>, FuncTypeView, FuncTypeView),
    IncompatibleImportGlobalType(ValueType, ValueType),
    IncompatibleImportGlobalMutability,
    IncompatibleImportTableType,
    IncompatibleImportMemoryType,
    UnsupportedInitExpr,
}

impl View for Error {
    type V = ErrorView;

    open spec fn view(&self) -> ErrorView {
        match self {
            Error::InvalidElementSegments(e) => ErrorView::InvalidElementSegments(*e),
            Error::InvalidDataSegments(e) => ErrorView::InvalidDataSegments(*e),
            Error::InvalidHostImport(e) => ErrorView::InvalidHostImport(*e),
            Error::InvalidImport(e) => ErrorView::InvalidImport(*e),
            Error::UnknownType(i) => ErrorView::UnknownType(*i),
            Error::UndefinedFunction(m, f) => ErrorView::UndefinedFunction(m@, f@),
            Error::UndefinedMemory(m, f) => ErrorView::UndefinedMemory(m@, f@),
            Error::UndefinedTable(m, f) => ErrorView::UndefinedTable(m@, f@),
            Error::UndefinedGlobal(m, f) => ErrorView::UndefinedGlobal(m@, f@),
            Error::FailedEntryFunction(e) => ErrorView::FailedEntryFunction(e@),
            Error::IncompatibleImportFuncType(n, expected, actual) => {
                ErrorView::IncompatibleImportFuncType(n@, expected@, actual@)
            },
            Error::IncompatibleImportGlobalType(expected, actual) => {
                ErrorView::IncompatibleImportGlobalType(*expected, *actual)
            },
            Error::IncompatibleImportGlobalMutability => ErrorView::IncompatibleImportGlobalMutability,
            Error::IncompatibleImportTableType => ErrorView::IncompatibleImportTableType,
            Error::IncompatibleImportMemoryType => ErrorView::IncompatibleImportMemoryType,
            Error::UnsupportedInitExpr => ErrorView::UnsupportedInitExpr,
        }
    }
}

/// The error for an import that names nothing.
pub open spec fn undefined(kind: ExportKind, module: Seq<char>, field: Seq<char>) -> ErrorView {
    match kind {
        ExportKind::Function => ErrorView::UndefinedFunction(module, field),
        ExportKind::Table => ErrorView::UndefinedTable(module, field),
        ExportKind::Memory => ErrorView::UndefinedMemory(module, field),
        ExportKind::Global => ErrorView::UndefinedGlobal(module, field),
    }
}

/// A kind of export in words.
pub open spec fn kind_text(kind: ExportKind) -> Seq<char> {
    match kind {
        ExportKind::Function => "function"@,
        ExportKind::Table => "table"@,
        ExportKind::Memory => "memory"@,
        ExportKind::Global => "global"@,
    }
}

/// The words for an import that names nothing.
pub open spec fn undefined_text(kind: Seq<char>, module: Seq<char>, field: Seq<char>) -> Seq<char> {
    "unknown import: Undefined "@ + kind + " \""@ + field + "\" in \""@ + module + "\""@
}

/// An instantiation error in words.
pub open spec fn error_text(e: ErrorView) -> Seq<char> {
    match e {
        ErrorView::InvalidElementSegments(_) => "elements segment does not fit: OutOfBounds"@,
        ErrorView::InvalidDataSegments(_) => "data segment does not fit: out of bounds"@,
        ErrorView::InvalidHostImport(HostModuleError::TypeMismatch(kind, found)) => {
            "invalid host import: expected "@ + kind_text(kind) + " but found "@ + kind_text(
                found.kind(),
            )
        },
        ErrorView::InvalidImport(DefinedModuleError::TypeMismatch(kind, found)) => {
            "invalid import: expected "@ + kind_text(kind) + " but found "@ + kind_text(
                found.kind(),
            )
        },
        ErrorView::UnknownType(index) => "Unknown type index used: "@ + decimal(index as nat),
        ErrorView::UndefinedFunction(module, field) => undefined_text("function"@, module, field),
        ErrorView::UndefinedMemory(module, field) => undefined_text("memory"@, module, field),
        ErrorView::UndefinedTable(module, field) => undefined_text("table"@, module, field),
        ErrorView::UndefinedGlobal(module, field) => undefined_text("global"@, module, field),
        ErrorView::FailedEntryFunction(trap) => trap_text(trap),
        ErrorView::IncompatibleImportFuncType(name, expected, actual) => {
            "incompatible import type, \""@ + name + "\" expected "@ + func_type_text(expected)
                + " but got "@ + func_type_text(actual)
        },
        ErrorView::IncompatibleImportGlobalType(expected, actual) => {
            "incompatible import type, expected "@ + value_type_text(expected) + " but got "@
                + value_type_text(actual)
        },
        ErrorView::IncompatibleImportGlobalMutability => "incompatible import type"@,
        ErrorView::IncompatibleImportTableType => "incompatible import type"@,
        ErrorView::IncompatibleImportMemoryType => "incompatible import type"@,
        ErrorView::UnsupportedInitExpr => "unsupported init expression"@,
    }
}

/// Appends a kind of export in words to `out`.
fn push_kind(out: &mut String, kind: ExportKind)
    ensures
        final(out)@ == old(out)@ + kind_text(kind),
{
    match kind {
        ExportKind::Function => out.append("function"),
        ExportKind::Table => out.append("table"),
        ExportKind::Memory => out.append("memory"),
        ExportKind::Global => out.append("global"),
    }
}

/// Appends the words for an import that names nothing to `out`.
fn push_undefined(out: &mut String, kind: &str, module: &String, field: &String)
    ensures
        final(out)@ == old(out)@ + undefined_text(kind@, module@, field@),
{
    out.append("unknown import: Undefined ");
    out.append(kind);
    out.append(" \"");
    out.append(field.as_str());
    out.append("\" in \"");
    out.append(module.as_str());
    out.append("\"");
    assert(final(out)@ =~= old(out)@ + undefined_text(kind@, module@, field@));
}

impl Error {
    /// The error in words.
    pub fn message(&self) -> (s: String)
        ensures
            s@ == error_text(self@),
    {
        let mut s = String::new();
        match self {
            Error::InvalidElementSegments(_) => {
                s.append("elements segment does not fit: OutOfBounds");
            },
            Error::InvalidDataSegments(_) => {
                s.append("data segment does not fit: out of bounds");
            },
            Error::InvalidHostImport(HostModuleError::TypeMismatch(kind, found)) => {
                s.append("invalid host import: expected ");
                push_kind(&mut s, *kind);
                s.append(" but found ");
                let found_kind = match found {
                    HostExport::Func(_) => ExportKind::Function,
                    HostExport::Table(_) => ExportKind::Table,
                    HostExport::Mem(_) => ExportKind::Memory,
                    HostExport::Global(_) => ExportKind::Global,
                };
                push_kind(&mut s, found_kind);
            },
            Error::InvalidImport(DefinedModuleError::TypeMismatch(kind, found)) => {
                s.append("invalid import: expected ");
                push_kind(&mut s, *kind);
                s.append(" but found ");
                let found_kind = match found {
                    Internal::Function(_) => ExportKind::Function,
                    Internal::Table(_) => ExportKind::Table,
                    Internal::Memory(_) => ExportKind::Memory,
                    Internal::Global(_) => ExportKind::Global,
                };
                push_kind(&mut s, found_kind);
            },
            Error::UnknownType(index) => {
                s.append("Unknown type index used: ");
                push_decimal(&mut s, *index as u64);
            },
            Error::UndefinedFunction(module, field) => {
                push_undefined(&mut s, "function", module, field);
            },
            Error::UndefinedMemory(module, field) => {
                push_undefined(&mut s, "memory", module, field);
            },
            Error::UndefinedTable(module, field) => {
                push_undefined(&mut s, "table", module, field);
            },
            Error::UndefinedGlobal(module, field) => {
                push_undefined(&mut s, "global", module, field);
            },
            Error::FailedEntryFunction(trap) => {
                let text = trap.message();
                s.append(text.as_str());
            },
            Error::IncompatibleImportFuncType(name, expected, actual) => {
                s.append("incompatible import type, \"");
                s.append(name.as_str());
                s.append("\" expected ");
                expected.push_text(&mut s);
                s.append(" but got ");
                actual.push_text(&mut s);
            },
            Error::IncompatibleImportGlobalType(expected, actual) => {
                s.append("incompatible import type, expected ");
                expected.push_text(&mut s);
                s.append(" but got ");
                actual.push_text(&mut s);
            },
            Error::IncompatibleImportGlobalMutability => {
                s.append("incompatible import type");
            },
            Error::IncompatibleImportTableType => {
                s.append("incompatible import type");
            },
            Error::IncompatibleImportMemoryType => {
                s.append("incompatible import type");
            },
            Error::UnsupportedInitExpr => {
                s.append("unsupported init expression");
            },
        }
        assert(s@ =~= error_text(self@));
        s
    }
}

} // verus!
