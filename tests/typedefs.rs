use solores::typedefs::{type_source, typedef_source, typedefs_source};
use solores::types::{EnumVariant, Field, NamedType, PrimitiveType, TypeDef, TypeRef};

fn field(name: &str, ty: TypeRef) -> Field {
    Field { name: name.to_string(), ty }
}

#[test]
fn type_references_are_written_out() {
    let t = TypeRef::Array(
        Box::new(TypeRef::Optional(Box::new(TypeRef::Primitive(PrimitiveType::PublicKey)))),
        32,
    );
    assert_eq!(type_source(&t), "[Option<Pubkey>; 32]");
    let l = TypeRef::List(Box::new(TypeRef::Defined("Entry".to_string(), vec![])));
    assert_eq!(type_source(&l), "Vec<Entry>");
    let g = TypeRef::Defined(
        "Pair".to_string(),
        vec![
            TypeRef::Primitive(PrimitiveType::U8),
            TypeRef::List(Box::new(TypeRef::Generic("T".to_string()))),
        ],
    );
    assert_eq!(type_source(&g), "Pair<u8, Vec<T>>");
    let big = TypeRef::Array(Box::new(TypeRef::Primitive(PrimitiveType::U8)), 1234567890);
    assert_eq!(type_source(&big), "[u8; 1234567890]");
    let zero = TypeRef::Array(Box::new(TypeRef::Primitive(PrimitiveType::Bytes)), 0);
    assert_eq!(type_source(&zero), "[Vec<u8>; 0]");
}

#[test]
fn generic_struct_keeps_its_parameters() {
    let d = NamedType {
        name: "Pair".to_string(),
        generics: vec!["K".to_string(), "V".to_string()],
        ty: TypeDef::Struct(vec![
            field("key", TypeRef::Generic("K".to_string())),
            field("values", TypeRef::List(Box::new(TypeRef::Generic("V".to_string())))),
        ]),
    };
    assert_eq!(
        typedef_source(&d, false),
        "#[derive(Clone, Debug, BorshDeserialize, BorshSerialize, PartialEq)]\n\
         pub struct Pair<K, V> {\n    pub key: K,\n    pub values: Vec<V>,\n}\n"
    );
}

#[test]
fn enum_variants_keep_their_shape() {
    let d = NamedType {
        name: "Action".to_string(),
        generics: vec![],
        ty: TypeDef::Enum(vec![
            EnumVariant { name: "Stop".to_string(), fields: vec![] },
            EnumVariant {
                name: "Move".to_string(),
                fields: vec![
                    field("", TypeRef::Primitive(PrimitiveType::I32)),
                    field("", TypeRef::Primitive(PrimitiveType::I32)),
                ],
            },
            EnumVariant {
                name: "Say".to_string(),
                fields: vec![field("text", TypeRef::Primitive(PrimitiveType::Str))],
            },
        ]),
    };
    assert_eq!(
        typedef_source(&d, false),
        "#[derive(Clone, Debug, BorshDeserialize, BorshSerialize, PartialEq)]\n\
         pub enum Action {\n    Stop,\n    Move(i32, i32),\n    Say {\n        text: String,\n    },\n}\n"
    );
}

#[test]
fn zero_copy_names_select_the_fixed_layout() {
    let ts = vec![
        NamedType {
            name: "A".to_string(),
            generics: vec![],
            ty: TypeDef::Struct(vec![field("x", TypeRef::Primitive(PrimitiveType::U64))]),
        },
        NamedType { name: "B".to_string(), generics: vec![], ty: TypeDef::Struct(vec![]) },
    ];
    let out = typedefs_source(&ts, &vec!["B".to_string(), "Nope".to_string()]);
    assert_eq!(
        out,
        "#[derive(Clone, Debug, BorshDeserialize, BorshSerialize, PartialEq)]\n\
         pub struct A {\n    pub x: u64,\n}\n\
         #[repr(C)]\n#[derive(Clone, Copy, Debug, PartialEq, Pod, Zeroable)]\n\
         pub struct B {\n}\n"
    );
    assert_eq!(typedefs_source(&vec![], &vec![]), "");
}
