//! Names and values of source-level types, for the debugger's listings.
//!
//! The types come from the debug information of a program; a value is read
//! from the bytes of a memory.
use crate::text::{decimal, hexadecimal, push_decimal, push_hexadecimal, push_signed_decimal, signed_decimal};
use std::collections::HashMap;
use vstd::prelude::*;
use vstd::string::*;

verus! {

broadcast use vstd::std_specs::hash::group_hash_axioms;

/// A type that is built in: its name and its size.
#[derive(Clone, Debug, PartialEq, Eq)]
pub struct BaseTypeInfo {
    pub name: String,
    pub byte_size: u64,
}

/// How a modified type is made of the type it modifies.
#[derive(Clone, Copy, Debug, PartialEq, Eq, Structural)]
pub enum ModifierKind {
    Atomic,
    Const,
    Immutable,
    Packed,
    Pointer,
    Reference,
    Restrict,
    RvalueReference,
    Shared,
    Volatile,
}

/// A type made of another one, which is at `content_ty_offset`; with none
/// there, of `void`.
#[derive(Clone, Copy, Debug, PartialEq, Eq, Structural)]
pub struct ModifiedTypeInfo {
    pub content_ty_offset: Option<usize>,
    pub kind: ModifierKind,
}

/// Where a piece of a located value lies.
#[derive(Clone, Copy, Debug, PartialEq, Eq, Structural)]
pub enum Location {
    /// In memory, at this address.
    Address(u64),
    /// Somewhere else: in a register, in the expression itself, nowhere.
    Other,
}

/// What the evaluation of a location expression gave.
#[derive(Clone, Debug, PartialEq, Eq)]
pub enum Evaluated {
    /// The pieces of the value, in their order.
    Pieces(Vec<Location>),
    /// The message that the evaluation failed with.
    Failed(String),
}

/// Where a member lies inside the value of its struct.
#[derive(Clone, Debug, PartialEq, Eq)]
pub enum MemberLocation {
    /// At a fixed offset.
    ConstOffset(u64),
    /// Where a location expression says.
    LocationDescription(Evaluated),
}

/// A member of a struct.
#[derive(Clone, Debug, PartialEq, Eq)]
pub struct Member {
    pub name: Option<String>,
    /// The offset of the type of the member.
    pub ty: usize,
    pub location: MemberLocation,
}

/// A struct: its name, if it has one, and its members.
#[derive(Clone, Debug, PartialEq, Eq)]
pub struct StructTypeInfo {
    pub name: Option<String>,
    pub members: Vec<Member>,
    pub byte_size: u64,
    pub declaration: bool,
}

/// A name for the type at `ty`.
#[derive(Clone, Debug, PartialEq, Eq)]
pub struct TypeDef {
    pub name: Option<String>,
    pub ty: Option<usize>,
}

/// What the debug information says of one type.
#[derive(Clone, Debug, PartialEq, Eq)]
pub enum TypeInfo {
    BaseType(BaseTypeInfo),
    ModifiedType(ModifiedTypeInfo),
    StructType(StructTypeInfo),
    TypeDef(TypeDef),
}

/// Why a type or a value cannot be put into words.
#[derive(Clone, Debug, PartialEq, Eq)]
pub enum FormatError {
    /// No type is known at this offset.
    TypeNotFound(usize),
    /// The types refer to each other in a circle.
    Cyclic,
    /// The value of the base type at this offset cannot be read.
    UnsupportedBaseType(usize),
    /// The memory ends before the value does.
    ShortMemory,
    /// The evaluation of a location expression failed, with this message.
    Location(String),
    /// A location expression gave no piece.
    NoLocation,
    /// A member lies somewhere else than in memory.
    UnsupportedLocation,
}

/// A formatting error as plain values.
pub enum FormatErrorView {
    TypeNotFound(usize),
    Cyclic,
    UnsupportedBaseType(usize),
    ShortMemory,
    Location(Seq<char>),
    NoLocation,
    UnsupportedLocation,
}

impl View for FormatError {
    type V = FormatErrorView;

    open spec fn view(&self) -> FormatErrorView {
        match self {
            FormatError::TypeNotFound(o) => FormatErrorView::TypeNotFound(*o),
            FormatError::Cyclic => FormatErrorView::Cyclic,
            FormatError::UnsupportedBaseType(o) => FormatErrorView::UnsupportedBaseType(*o),
            FormatError::ShortMemory => FormatErrorView::ShortMemory,
            FormatError::Location(msg) => FormatErrorView::Location(msg@),
            FormatError::NoLocation => FormatErrorView::NoLocation,
            FormatError::UnsupportedLocation => FormatErrorView::UnsupportedLocation,
        }
    }
}

/// A name, or the words that stand for a name that is not known.
pub open spec fn name_or(name: Option<String>, missing: Seq<char>) -> Seq<char> {
    match name {
        Some(name) => name@,
        None => missing,
    }
}

/// The name of a modified type, made of the name of the type it modifies.
pub open spec fn modified_name(kind: ModifierKind, inner: Seq<char>) -> Seq<char> {
    match kind {
        ModifierKind::Atomic => "std::atomic<"@ + inner + ">"@,
        ModifierKind::Const => "const "@ + inner,
        ModifierKind::Immutable => "immutable "@ + inner,
        ModifierKind::Packed => "packed "@ + inner,
        ModifierKind::Pointer => inner + "*"@,
        ModifierKind::Reference => inner + "&"@,
        ModifierKind::Restrict => "restrict "@ + inner,
        ModifierKind::RvalueReference => inner + "&&"@,
        ModifierKind::Shared => "shared "@ + inner,
        ModifierKind::Volatile => "violate "@ + inner,
    }
}

/// The name of the type at an offset, `void` with no offset. A chain of
/// modified types is followed for at most `fuel` links.
pub open spec fn type_name_of(types: Map<usize, TypeInfo>, ty_offset: Option<usize>, fuel: nat) -> Result<
    Seq<char>,
    FormatErrorView,
>
    decreases fuel,
{
    match ty_offset {
        None => Ok("void"@),
        Some(offset) => if !types.contains_key(offset) {
            Err(FormatErrorView::TypeNotFound(offset))
        } else {
            match types[offset] {
                TypeInfo::BaseType(base) => Ok(base.name@),
                TypeInfo::StructType(s) => Ok(name_or(s.name, "struct <<not parsed yet>>"@)),
                TypeInfo::TypeDef(t) => Ok(name_or(t.name, "typedef <<not parsed yet>>"@)),
                TypeInfo::ModifiedType(m) => if fuel == 0 {
                    Err(FormatErrorView::Cyclic)
                } else {
                    match type_name_of(types, m.content_ty_offset, (fuel - 1) as nat) {
                        Err(e) => Err(e),
                        Ok(inner) => Ok(modified_name(m.kind, inner)),
                    }
                },
            }
        },
    }
}

/// Puts a name of its own, or the words for a missing one, at the end of
/// `out`.
fn push_name_or(out: &mut String, name: &Option<String>, missing: &str)
    ensures
        final(out)@ == old(out)@ + name_or(*name, missing@),
{
    match name {
        Some(name) => out.append(name.as_str()),
        None => out.append(missing),
    }
}

fn type_name_within(
    ty_offset: Option<usize>,
    type_hash: &HashMap<usize, TypeInfo>,
    fuel: usize,
) -> (r: Result<String, FormatError>)
    ensures
        match type_name_of(type_hash@, ty_offset, fuel as nat) {
            Ok(name) => r is Ok && r->Ok_0@ == name,
            Err(e) => r is Err && r->Err_0@ == e,
        },
    decreases fuel,
{
    let offset = match ty_offset {
        Some(offset) => offset,
        None => {
            return Ok(String::from_str("void"));
        },
    };
    let ty = match type_hash.get(&offset) {
        Some(ty) => ty,
        None => {
            return Err(FormatError::TypeNotFound(offset));
        },
    };
    let mut name = String::new();
    match ty {
        TypeInfo::BaseType(base) => {
            name.append(base.name.as_str());
        },
        TypeInfo::StructType(s) => {
            push_name_or(&mut name, &s.name, "struct <<not parsed yet>>");
        },
        TypeInfo::TypeDef(t) => {
            push_name_or(&mut name, &t.name, "typedef <<not parsed yet>>");
        },
        TypeInfo::ModifiedType(m) => {
            if fuel == 0 {
                return Err(FormatError::Cyclic);
            }
            let inner = match type_name_within(m.content_ty_offset, type_hash, fuel - 1) {
                Ok(inner) => inner,
                Err(e) => {
                    return Err(e);
                },
            };
            match m.kind {
                ModifierKind::Atomic => {
                    name.append("std::atomic<");
                    name.append(inner.as_str());
                    name.append(">");
                },
                ModifierKind::Const => {
                    name.append("const ");
                    name.append(inner.as_str());
                },
                ModifierKind::Immutable => {
                    name.append("immutable ");
                    name.append(inner.as_str());
                },
                ModifierKind::Packed => {
                    name.append("packed ");
                    name.append(inner.as_str());
                },
                ModifierKind::Pointer => {
                    name.append(inner.as_str());
                    name.append("*");
                },
                ModifierKind::Reference => {
                    name.append(inner.as_str());
                    name.append("&");
                },
                ModifierKind::Restrict => {
                    name.append("restrict ");
                    name.append(inner.as_str());
                },
                ModifierKind::RvalueReference => {
                    name.append(inner.as_str());
                    name.append("&&");
                },
                ModifierKind::Shared => {
                    name.append("shared ");
                    name.append(inner.as_str());
                },
                ModifierKind::Volatile => {
                    name.append("violate ");
                    name.append(inner.as_str());
                },
            }
            assert(name@ =~= modified_name(m.kind, inner@));
        },
    }
    assert(name@ =~= type_name_of(type_hash@, ty_offset, fuel as nat)->Ok_0);
    Ok(name)
}

/// The name of the type at an offset, `void` with no offset. A chain of
/// modified types may be as long as there are types; a longer one runs in
/// a circle.
pub fn type_name_at(ty_offset: Option<usize>, type_hash: &HashMap<usize, TypeInfo>) -> (r: Result<
    String,
    FormatError,
>)
    ensures
        match type_name_of(type_hash@, ty_offset, type_hash@.len()) {
            Ok(name) => r is Ok && r->Ok_0@ == name,
            Err(e) => r is Err && r->Err_0@ == e,
        },
{
    type_name_within(ty_offset, type_hash, type_hash.len())
}

/// The number that four bytes hold, the lowest byte first.
pub open spec fn le_u32(bytes: Seq<u8>) -> nat {
    (bytes[0] + bytes[1] * 0x100 + bytes[2] * 0x1_0000 + bytes[3] * 0x100_0000) as nat
}

/// The number that four bytes hold in two's complement, the lowest byte
/// first.
pub open spec fn le_i32(bytes: Seq<u8>) -> int {
    if le_u32(bytes) >= 0x8000_0000 {
        le_u32(bytes) - 0x1_0000_0000
    } else {
        le_u32(bytes) as int
    }
}

/// The value of a base type in words. An `int` and a `long unsigned int`
/// are four bytes wide and are put as the name with the decimal number in
/// brackets; a `char` is put as its character. No other base type can be
/// read.
pub open spec fn base_text(base: BaseTypeInfo, offset: usize, memory: Seq<u8>) -> Result<
    Seq<char>,
    FormatErrorView,
> {
    if base.name@ == "int"@ || base.name@ == "long unsigned int"@ {
        if base.byte_size != 4 {
            Err(FormatErrorView::UnsupportedBaseType(offset))
        } else if memory.len() < 4 {
            Err(FormatErrorView::ShortMemory)
        } else if base.name@ == "int"@ {
            Ok(base.name@ + "("@ + signed_decimal(le_i32(memory)) + ")"@)
        } else {
            Ok(base.name@ + "("@ + decimal(le_u32(memory)) + ")"@)
        }
    } else if base.name@ == "char"@ {
        if memory.len() == 0 {
            Err(FormatErrorView::ShortMemory)
        } else if memory[0] < 0x80 {
            Ok(seq![memory[0] as char])
        } else {
            Ok("<<invalid utf8 char>>"@)
        }
    } else {
        Err(FormatErrorView::UnsupportedBaseType(offset))
    }
}

/// The offset of a member inside the value of its struct: the fixed one,
/// or the address of the first piece that its location expression gave.
pub open spec fn member_offset(location: MemberLocation) -> Result<u64, FormatErrorView> {
    match location {
        MemberLocation::ConstOffset(offset) => Ok(offset),
        MemberLocation::LocationDescription(Evaluated::Failed(msg)) => Err(
            FormatErrorView::Location(msg@),
        ),
        MemberLocation::LocationDescription(Evaluated::Pieces(pieces)) => if pieces@.len() == 0 {
            Err(FormatErrorView::NoLocation)
        } else {
            match pieces@[0] {
                Location::Address(address) => Ok(address),
                Location::Other => Err(FormatErrorView::UnsupportedLocation),
            }
        },
    }
}

/// The value of the type at `ty_offset` that lies at the start of `memory`,
/// in words. Types inside types are followed for at most `fuel` levels.
pub open spec fn object_text(
    types: Map<usize, TypeInfo>,
    ty_offset: usize,
    memory: Seq<u8>,
    fuel: nat,
) -> Result<Seq<char>, FormatErrorView>
    decreases fuel, 0nat,
{
    if !types.contains_key(ty_offset) {
        Err(FormatErrorView::TypeNotFound(ty_offset))
    } else {
        match types[ty_offset] {
            TypeInfo::BaseType(base) => base_text(base, ty_offset, memory),
            TypeInfo::StructType(s) => if fuel == 0 {
                Err(FormatErrorView::Cyclic)
            } else {
                match members_text(types, s.members@, memory, (fuel - 1) as nat) {
                    Err(e) => Err(e),
                    Ok(members) => Ok(
                        name_or(s.name, "<<not parsed yet>>"@) + " {\n"@ + members + "\n}"@,
                    ),
                }
            },
            TypeInfo::TypeDef(t) => match t.ty {
                None => Ok(
                    "typedef "@ + name_or(t.name, "<<not parsed yet>>"@) + " <<not parsed yet>>"@,
                ),
                Some(inner) => if fuel == 0 {
                    Err(FormatErrorView::Cyclic)
                } else {
                    match object_text(types, inner, memory, (fuel - 1) as nat) {
                        Err(e) => Err(e),
                        Ok(text) => Ok(
                            "typedef "@ + name_or(t.name, "<<not parsed yet>>"@) + " "@ + text,
                        ),
                    }
                },
            },
            TypeInfo::ModifiedType(m) => match m.kind {
                ModifierKind::Pointer | ModifierKind::Reference => match type_name_of(
                    types,
                    m.content_ty_offset,
                    types.len(),
                ) {
                    Err(e) => Err(e),
                    Ok(name) => if memory.len() < 4 {
                        Err(FormatErrorView::ShortMemory)
                    } else {
                        Ok(
                            name + (if m.kind == ModifierKind::Pointer {
                                "*"@
                            } else {
                                "&"@
                            }) + " (0x"@ + hexadecimal(le_u32(memory)) + ")"@,
                        )
                    },
                },
                _ => match type_name_of(types, Some(ty_offset), types.len()) {
                    Err(e) => Err(e),
                    Ok(name) => match m.content_ty_offset {
                        None => Ok(name + "(unknown)"@),
                        Some(inner) => if fuel == 0 {
                            Err(FormatErrorView::Cyclic)
                        } else {
                            match object_text(types, inner, memory, (fuel - 1) as nat) {
                                Err(e) => Err(e),
                                Ok(text) => Ok(name + "("@ + text + ")"@),
                            }
                        },
                    },
                },
            },
        }
    }
}

/// One member in words: its name, a colon, and its value, which lies at the
/// offset of the member.
pub open spec fn member_text(
    types: Map<usize, TypeInfo>,
    member: Member,
    memory: Seq<u8>,
    fuel: nat,
) -> Result<Seq<char>, FormatErrorView>
    decreases fuel, 1nat,
{
    match member_offset(member.location) {
        Err(e) => Err(e),
        Ok(offset) => if offset > memory.len() {
            Err(FormatErrorView::ShortMemory)
        } else {
            match object_text(types, member.ty, memory.skip(offset as int), fuel) {
                Err(e) => Err(e),
                Ok(text) => Ok(name_or(member.name, "<<not parsed yet>>"@) + ": "@ + text),
            }
        },
    }
}

/// The members of a struct in words, one to a line, with commas between
/// them.
pub open spec fn members_text(
    types: Map<usize, TypeInfo>,
    members: Seq<Member>,
    memory: Seq<u8>,
    fuel: nat,
) -> Result<Seq<char>, FormatErrorView>
    decreases fuel, 2 + members.len(),
{
    if members.len() == 0 {
        Ok(Seq::empty())
    } else {
        match members_text(types, members.drop_last(), memory, fuel) {
            Err(e) => Err(e),
            Ok(before) => match member_text(types, members.last(), memory, fuel) {
                Err(e) => Err(e),
                Ok(text) => Ok(
                    if members.len() == 1 {
                        text
                    } else {
                        before + ",\n"@ + text
                    },
                ),
            },
        }
    }
}

/// A member that fails makes the whole list fail, with its error.
pub proof fn lemma_members_text_fails(
    types: Map<usize, TypeInfo>,
    members: Seq<Member>,
    memory: Seq<u8>,
    fuel: nat,
    upto: int,
)
    requires
        0 <= upto <= members.len(),
        members_text(types, members.take(upto), memory, fuel) is Err,
    ensures
        members_text(types, members, memory, fuel) == members_text(
            types,
            members.take(upto),
            memory,
            fuel,
        ),
    decreases members.len() - upto,
{
    if upto < members.len() {
        assert(members.take(upto + 1).drop_last() =~= members.take(upto));
        lemma_members_text_fails(types, members, memory, fuel, upto + 1);
    } else {
        assert(members.take(upto) =~= members);
    }
}

/// Reads four bytes as a number, the lowest byte first.
fn read_le_u32(memory: &[u8]) -> (v: u32)
    requires
        memory@.len() >= 4,
    ensures
        v == le_u32(memory@),
{
    let v: u64 = memory[0] as u64 + memory[1] as u64 * 0x100 + memory[2] as u64 * 0x1_0000
        + memory[3] as u64 * 0x100_0000;
    v as u32
}

/// The offset of a member inside the value of its struct.
fn offset_of_member(location: &MemberLocation) -> (r: Result<u64, FormatError>)
    ensures
        match member_offset(*location) {
            Ok(offset) => r == Ok::<u64, FormatError>(offset),
            Err(e) => r is Err && r->Err_0@ == e,
        },
{
    match location {
        MemberLocation::ConstOffset(offset) => Ok(*offset),
        MemberLocation::LocationDescription(Evaluated::Failed(msg)) => Err(
            FormatError::Location(msg.clone()),
        ),
        MemberLocation::LocationDescription(Evaluated::Pieces(pieces)) => {
            if pieces.len() == 0 {
                Err(FormatError::NoLocation)
            } else {
                match pieces[0] {
                    Location::Address(address) => Ok(address),
                    Location::Other => Err(FormatError::UnsupportedLocation),
                }
            }
        },
    }
}

/// Puts the value of a base type into words.
fn format_base(base: &BaseTypeInfo, offset: usize, memory: &[u8]) -> (r: Result<
    String,
    FormatError,
>)
    ensures
        match base_text(*base, offset, memory@) {
            Ok(text) => r is Ok && r->Ok_0@ == text,
            Err(e) => r is Err && r->Err_0@ == e,
        },
{
    let is_int = base.name == String::from_str("int");
    let is_unsigned = base.name == String::from_str("long unsigned int");
    if is_int || is_unsigned {
        if base.byte_size != 4 {
            return Err(FormatError::UnsupportedBaseType(offset));
        }
        if memory.len() < 4 {
            return Err(FormatError::ShortMemory);
        }
        let raw = read_le_u32(memory);
        let mut text = String::new();
        text.append(base.name.as_str());
        text.append("(");
        if is_int {
            let value: i64 = if raw >= 0x8000_0000 {
                raw as i64 - 0x1_0000_0000
            } else {
                raw as i64
            };
            push_signed_decimal(&mut text, value);
        } else {
            push_decimal(&mut text, raw as u64);
        }
        text.append(")");
        assert(text@ =~= base_text(*base, offset, memory@)->Ok_0);
        Ok(text)
    } else if base.name == String::from_str("char") {
        if memory.len() == 0 {
            return Err(FormatError::ShortMemory);
        }
        let mut text = String::new();
        if memory[0] < 0x80 {
            text.push(memory[0] as char);
            assert(text@ =~= seq![memory@[0] as char]);
        } else {
            text.append("<<invalid utf8 char>>");
            assert(text@ =~= "<<invalid utf8 char>>"@);
        }
        Ok(text)
    } else {
        Err(FormatError::UnsupportedBaseType(offset))
    }
}

fn format_object_within(
    ty_offset: usize,
    memory: &[u8],
    type_hash: &HashMap<usize, TypeInfo>,
    fuel: usize,
) -> (r: Result<String, FormatError>)
    ensures
        match object_text(type_hash@, ty_offset, memory@, fuel as nat) {
            Ok(text) => r is Ok && r->Ok_0@ == text,
            Err(e) => r is Err && r->Err_0@ == e,
        },
    decreases fuel,
{
    let ty = match type_hash.get(&ty_offset) {
        Some(ty) => ty,
        None => {
            return Err(FormatError::TypeNotFound(ty_offset));
        },
    };
    match ty {
        TypeInfo::BaseType(base) => format_base(base, ty_offset, memory),
        TypeInfo::StructType(s) => {
            if fuel == 0 {
                return Err(FormatError::Cyclic);
            }
            let mut members = String::new();
            let mut i: usize = 0;
            proof {
                assert(s.members@.take(0) =~= Seq::<Member>::empty());
            }
            while i < s.members.len()
                invariant
                    i <= s.members@.len(),
                    fuel > 0,
                    type_hash@.contains_key(ty_offset),
                    type_hash@[ty_offset] == TypeInfo::StructType(*s),
                    members_text(
                        type_hash@,
                        s.members@.take(i as int),
                        memory@,
                        (fuel - 1) as nat,
                    ) == Ok::<Seq<char>, FormatErrorView>(members@),
                decreases s.members@.len() - i,
            {
                proof {
                    reveal_with_fuel(members_text, 2);
                    reveal_with_fuel(member_text, 2);
                    assert(s.members@.take(i as int + 1).drop_last() =~= s.members@.take(i as int));
                    assert(s.members@.take(i as int + 1).last() == s.members@[i as int]);
                }
                let member = &s.members[i];
                let offset = match offset_of_member(&member.location) {
                    Ok(offset) => offset,
                    Err(e) => {
                        proof {
                            lemma_members_text_fails(
                                type_hash@,
                                s.members@,
                                memory@,
                                (fuel - 1) as nat,
                                i as int + 1,
                            );
                        }
                        return Err(e);
                    },
                };
                if offset > memory.len() as u64 {
                    proof {
                        lemma_members_text_fails(
                            type_hash@,
                            s.members@,
                            memory@,
                            (fuel - 1) as nat,
                            i as int + 1,
                        );
                    }
                    return Err(FormatError::ShortMemory);
                }
                let rest = vstd::slice::slice_subrange(memory, offset as usize, memory.len());
                proof {
                    assert(rest@ =~= memory@.skip(offset as int));
                }
                let text = match format_object_within(member.ty, rest, type_hash, fuel - 1) {
                    Ok(text) => text,
                    Err(e) => {
                        proof {
                            lemma_members_text_fails(
                                type_hash@,
                                s.members@,
                                memory@,
                                (fuel - 1) as nat,
                                i as int + 1,
                            );
                        }
                        return Err(e);
                    },
                };
                let ghost before = members@;
                if i > 0 {
                    members.append(",\n");
                }
                push_name_or(&mut members, &member.name, "<<not parsed yet>>");
                members.append(": ");
                members.append(text.as_str());
                proof {
                    let line = name_or(member.name, "<<not parsed yet>>"@) + ": "@ + text@;
                    if i > 0 {
                        assert(members@ =~= before + ",\n"@ + line);
                    } else {
                        assert(before =~= Seq::<char>::empty());
                        assert(members@ =~= line);
                    }
                }
                i += 1;
            }
            proof {
                assert(s.members@.take(i as int) =~= s.members@);
            }
            let mut text = String::new();
            push_name_or(&mut text, &s.name, "<<not parsed yet>>");
            text.append(" {\n");
            text.append(members.as_str());
            text.append("\n}");
            assert(text@ =~= name_or(s.name, "<<not parsed yet>>"@) + " {\n"@ + members@ + "\n}"@);
            Ok(text)
        },
        TypeInfo::TypeDef(t) => {
            let mut text = String::from_str("typedef ");
            push_name_or(&mut text, &t.name, "<<not parsed yet>>");
            match t.ty {
                None => {
                    text.append(" <<not parsed yet>>");
                    assert(text@ =~= "typedef "@ + name_or(t.name, "<<not parsed yet>>"@)
                        + " <<not parsed yet>>"@);
                    Ok(text)
                },
                Some(inner) => {
                    if fuel == 0 {
                        return Err(FormatError::Cyclic);
                    }
                    match format_object_within(inner, memory, type_hash, fuel - 1) {
                        Ok(object) => {
                            text.append(" ");
                            text.append(object.as_str());
                            assert(text@ =~= "typedef "@ + name_or(t.name, "<<not parsed yet>>"@)
                                + " "@ + object@);
                            Ok(text)
                        },
                        Err(e) => Err(e),
                    }
                },
            }
        },
        TypeInfo::ModifiedType(m) => match m.kind {
            ModifierKind::Pointer | ModifierKind::Reference => {
                let mut text = match type_name_at(m.content_ty_offset, type_hash) {
                    Ok(name) => name,
                    Err(e) => {
                        return Err(e);
                    },
                };
                if memory.len() < 4 {
                    return Err(FormatError::ShortMemory);
                }
                let ghost name = text@;
                match m.kind {
                    ModifierKind::Pointer => text.append("*"),
                    _ => text.append("&"),
                }
                text.append(" (0x");
                push_hexadecimal(&mut text, read_le_u32(memory) as u64);
                text.append(")");
                assert(text@ =~= name + (if m.kind == ModifierKind::Pointer {
                    "*"@
                } else {
                    "&"@
                }) + " (0x"@ + hexadecimal(le_u32(memory@)) + ")"@);
                Ok(text)
            },
            _ => {
                let mut text = match type_name_at(Some(ty_offset), type_hash) {
                    Ok(name) => name,
                    Err(e) => {
                        return Err(e);
                    },
                };
                let ghost name = text@;
                match m.content_ty_offset {
                    None => {
                        text.append("(unknown)");
                        Ok(text)
                    },
                    Some(inner) => {
                        if fuel == 0 {
                            return Err(FormatError::Cyclic);
                        }
                        match format_object_within(inner, memory, type_hash, fuel - 1) {
                            Ok(object) => {
                                text.append("(");
                                text.append(object.as_str());
                                text.append(")");
                                assert(text@ =~= name + "("@ + object@ + ")"@);
                                Ok(text)
                            },
                            Err(e) => Err(e),
                        }
                    },
                }
            },
        },
    }
}

/// Puts the value of the type at `ty_offset` that lies at the start of
/// `memory` into words. Types may lie inside types as deep as there are
/// types; what lies deeper runs in a circle.
pub fn format_object(ty_offset: usize, memory: &[u8], type_hash: &HashMap<usize, TypeInfo>) -> (r:
    Result<String, FormatError>)
    ensures
        match object_text(type_hash@, ty_offset, memory@, type_hash@.len()) {
            Ok(text) => r is Ok && r->Ok_0@ == text,
            Err(e) => r is Err && r->Err_0@ == e,
        },
{
    format_object_within(ty_offset, memory, type_hash, type_hash.len())
}

} // verus!
