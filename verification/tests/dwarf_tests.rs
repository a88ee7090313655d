use std::collections::HashMap;
use wasminspect::dwarf::{
    format_object, type_name_at, BaseTypeInfo, Evaluated, FormatError, Location, Member,
    MemberLocation, ModifiedTypeInfo, ModifierKind, StructTypeInfo, TypeDef, TypeInfo,
};

fn base(name: &str, byte_size: u64) -> TypeInfo {
    TypeInfo::BaseType(BaseTypeInfo { name: name.to_string(), byte_size })
}

fn modified(kind: ModifierKind, content: Option<usize>) -> TypeInfo {
    TypeInfo::ModifiedType(ModifiedTypeInfo { content_ty_offset: content, kind })
}

fn member(name: Option<&str>, ty: usize, location: MemberLocation) -> Member {
    Member { name: name.map(|n| n.to_string()), ty, location }
}

fn types() -> HashMap<usize, TypeInfo> {
    let mut types = HashMap::new();
    types.insert(1, base("int", 4));
    types.insert(2, base("long unsigned int", 4));
    types.insert(3, base("char", 1));
    types.insert(4, base("float", 4));
    types.insert(10, modified(ModifierKind::Pointer, Some(1)));
    types.insert(11, modified(ModifierKind::Const, Some(10)));
    types.insert(12, modified(ModifierKind::Reference, Some(11)));
    types.insert(13, modified(ModifierKind::Pointer, None));
    types.insert(14, modified(ModifierKind::Volatile, Some(1)));
    types.insert(15, modified(ModifierKind::Atomic, Some(2)));
    types.insert(16, modified(ModifierKind::RvalueReference, Some(3)));
    types.insert(17, modified(ModifierKind::Const, Some(99)));
    types.insert(18, modified(ModifierKind::Const, Some(18)));
    types.insert(19, modified(ModifierKind::Const, None));
    types.insert(
        20,
        TypeInfo::StructType(StructTypeInfo {
            name: Some("point".to_string()),
            members: vec![
                member(Some("x"), 1, MemberLocation::ConstOffset(0)),
                member(
                    None,
                    2,
                    MemberLocation::LocationDescription(Evaluated::Pieces(vec![
                        Location::Address(4),
                        Location::Other,
                    ])),
                ),
                member(Some("tag"), 3, MemberLocation::ConstOffset(8)),
            ],
            byte_size: 9,
            declaration: false,
        }),
    );
    types.insert(
        21,
        TypeInfo::StructType(StructTypeInfo {
            name: None,
            members: vec![],
            byte_size: 0,
            declaration: true,
        }),
    );
    types.insert(30, TypeInfo::TypeDef(TypeDef { name: Some("id".to_string()), ty: Some(1) }));
    types.insert(31, TypeInfo::TypeDef(TypeDef { name: None, ty: None }));
    types.insert(32, TypeInfo::TypeDef(TypeDef { name: Some("loop".to_string()), ty: Some(32) }));
    types
}

fn strukt(members: Vec<Member>) -> HashMap<usize, TypeInfo> {
    let mut types = types();
    types.insert(
        40,
        TypeInfo::StructType(StructTypeInfo {
            name: Some("s".to_string()),
            members,
            byte_size: 0,
            declaration: false,
        }),
    );
    types
}

#[test]
fn names_of_types() {
    let types = types();
    let name = |offset| type_name_at(Some(offset), &types);
    assert_eq!(type_name_at(None, &types), Ok("void".to_string()));
    assert_eq!(name(1), Ok("int".to_string()));
    assert_eq!(name(10), Ok("int*".to_string()));
    assert_eq!(name(11), Ok("const int*".to_string()));
    assert_eq!(name(12), Ok("const int*&".to_string()));
    assert_eq!(name(13), Ok("void*".to_string()));
    assert_eq!(name(14), Ok("violate int".to_string()));
    assert_eq!(name(15), Ok("std::atomic<long unsigned int>".to_string()));
    assert_eq!(name(16), Ok("char&&".to_string()));
    assert_eq!(name(20), Ok("point".to_string()));
    assert_eq!(name(21), Ok("struct <<not parsed yet>>".to_string()));
    assert_eq!(name(30), Ok("id".to_string()));
    assert_eq!(name(31), Ok("typedef <<not parsed yet>>".to_string()));
    assert_eq!(name(5), Err(FormatError::TypeNotFound(5)));
    assert_eq!(name(17), Err(FormatError::TypeNotFound(99)));
    assert_eq!(name(18), Err(FormatError::Cyclic));
}

#[test]
fn names_of_the_other_modifiers() {
    let mut types = HashMap::new();
    types.insert(1, base("int", 4));
    for (offset, kind, expected) in [
        (2, ModifierKind::Immutable, "immutable int"),
        (3, ModifierKind::Packed, "packed int"),
        (4, ModifierKind::Restrict, "restrict int"),
        (5, ModifierKind::Shared, "shared int"),
        (6, ModifierKind::Reference, "int&"),
    ] {
        types.insert(offset, modified(kind, Some(1)));
        assert_eq!(type_name_at(Some(offset), &types), Ok(expected.to_string()));
    }
}

#[test]
fn values_of_base_types() {
    let types = types();
    let memory = [0xfe, 0xff, 0xff, 0xff, 0x41];
    assert_eq!(format_object(1, &memory, &types), Ok("int(-2)".to_string()));
    assert_eq!(
        format_object(2, &memory, &types),
        Ok("long unsigned int(4294967294)".to_string())
    );
    assert_eq!(format_object(1, &[0x39, 0x30, 0, 0], &types), Ok("int(12345)".to_string()));
    assert_eq!(format_object(1, &[0, 0, 0, 0x80], &types), Ok("int(-2147483648)".to_string()));
    assert_eq!(format_object(3, &memory[4..], &types), Ok("A".to_string()));
    assert_eq!(format_object(3, &memory, &types), Ok("<<invalid utf8 char>>".to_string()));
    assert_eq!(format_object(3, &[], &types), Err(FormatError::ShortMemory));
    assert_eq!(format_object(1, &memory[..3], &types), Err(FormatError::ShortMemory));
    assert_eq!(format_object(4, &memory, &types), Err(FormatError::UnsupportedBaseType(4)));
    assert_eq!(format_object(7, &memory, &types), Err(FormatError::TypeNotFound(7)));
    let mut wide = HashMap::new();
    wide.insert(1, base("int", 8));
    assert_eq!(format_object(1, &memory, &wide), Err(FormatError::UnsupportedBaseType(1)));
}

#[test]
fn values_of_modified_types() {
    let types = types();
    let memory = [0x10, 0x02, 0, 0, 9];
    assert_eq!(format_object(10, &memory, &types), Ok("int* (0x210)".to_string()));
    assert_eq!(format_object(12, &memory, &types), Ok("const int*& (0x210)".to_string()));
    assert_eq!(
        format_object(10, &[0xff, 0xff, 0xff, 0xff], &types),
        Ok("int* (0xffffffff)".to_string())
    );
    assert_eq!(format_object(13, &[0, 0, 0, 0], &types), Ok("void* (0x0)".to_string()));
    assert_eq!(format_object(10, &memory[..2], &types), Err(FormatError::ShortMemory));
    assert_eq!(format_object(14, &memory, &types), Ok("violate int(int(528))".to_string()));
    assert_eq!(
        format_object(11, &memory, &types),
        Ok("const int*(int* (0x210))".to_string())
    );
    assert_eq!(format_object(19, &memory, &types), Ok("const void(unknown)".to_string()));
    assert_eq!(format_object(17, &memory, &types), Err(FormatError::TypeNotFound(99)));
    assert_eq!(format_object(18, &memory, &types), Err(FormatError::Cyclic));
}

#[test]
fn values_of_structs_and_typedefs() {
    let types = types();
    let memory = [1, 0, 0, 0, 2, 0, 0, 0, 0x7a];
    assert_eq!(
        format_object(20, &memory, &types),
        Ok("point {\nx: int(1),\n<<not parsed yet>>: long unsigned int(2),\ntag: z\n}".to_string())
    );
    assert_eq!(format_object(21, &memory, &types), Ok("<<not parsed yet>> {\n\n}".to_string()));
    assert_eq!(format_object(30, &memory, &types), Ok("typedef id int(1)".to_string()));
    assert_eq!(
        format_object(31, &memory, &types),
        Ok("typedef <<not parsed yet>> <<not parsed yet>>".to_string())
    );
    assert_eq!(format_object(32, &memory, &types), Err(FormatError::Cyclic));
    assert_eq!(format_object(20, &memory[..8], &types), Err(FormatError::ShortMemory));
}

#[test]
fn members_that_cannot_be_located() {
    let memory = [1, 0, 0, 0];
    let failing = |location| {
        let types = strukt(vec![
            member(Some("ok"), 1, MemberLocation::ConstOffset(0)),
            member(Some("bad"), 1, location),
            member(Some("worse"), 77, MemberLocation::ConstOffset(0)),
        ]);
        format_object(40, &memory, &types)
    };
    assert_eq!(
        failing(MemberLocation::LocationDescription(Evaluated::Failed("stack empty".to_string()))),
        Err(FormatError::Location("stack empty".to_string()))
    );
    assert_eq!(
        failing(MemberLocation::LocationDescription(Evaluated::Pieces(vec![]))),
        Err(FormatError::NoLocation)
    );
    assert_eq!(
        failing(MemberLocation::LocationDescription(Evaluated::Pieces(vec![
            Location::Other,
            Location::Address(0)
        ]))),
        Err(FormatError::UnsupportedLocation)
    );
    assert_eq!(failing(MemberLocation::ConstOffset(5)), Err(FormatError::ShortMemory));
    assert_eq!(failing(MemberLocation::ConstOffset(4)), Err(FormatError::ShortMemory));
    assert_eq!(failing(MemberLocation::ConstOffset(u64::MAX)), Err(FormatError::ShortMemory));
    assert_eq!(failing(MemberLocation::ConstOffset(0)), Err(FormatError::TypeNotFound(77)));
}
