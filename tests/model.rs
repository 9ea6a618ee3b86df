use solores::idl::AnchorIdl;
use solores::instructions::flatten_accounts;
use solores::resolver::IdlError;
use solores::tokens::{primitive_from_token, str_eq};
use solores::types::{
    inline_defined, IxAccount, IxAccountEntry, IxAccountGroup, PrimitiveType,
    TypeRef,
};

fn single(name: &str, is_mut: bool, is_signer: bool) -> IxAccountEntry {
    IxAccountEntry::Single(IxAccount { name: name.to_string(), is_mut, is_signer })
}

#[test]
fn scalar_tokens_map_onto_the_model() {
    assert_eq!(primitive_from_token("u64"), Ok(PrimitiveType::U64));
    assert_eq!(primitive_from_token("publicKey"), Ok(PrimitiveType::PublicKey));
    assert_eq!(primitive_from_token("string"), Ok(PrimitiveType::Str));
    assert_eq!(primitive_from_token("f64"), Ok(PrimitiveType::Float64));
    assert_eq!(primitive_from_token("bool"), Ok(PrimitiveType::Bool));
}

#[test]
fn unknown_token_is_refused() {
    assert_eq!(primitive_from_token("u256"), Err(IdlError::UnknownTypeToken("u256".to_string())));
    assert_eq!(primitive_from_token(""), Err(IdlError::UnknownTypeToken(String::new())));
    assert_eq!(primitive_from_token("U64"), Err(IdlError::UnknownTypeToken("U64".to_string())));
}

#[test]
fn strings_compare_by_content() {
    assert!(str_eq("abc", "abc"));
    assert!(!str_eq("abc", "abd"));
    assert!(!str_eq("ab", "abc"));
    assert!(str_eq("", ""));
    assert!(!str_eq("é", "e"));
}

#[test]
fn nested_groups_flatten_in_order() {
    let es = vec![
        single("payer", true, true),
        IxAccountEntry::Group(IxAccountGroup {
            name: "pool".to_string(),
            accounts: vec![
                single("state", true, false),
                IxAccountEntry::Group(IxAccountGroup {
                    name: "vaults".to_string(),
                    accounts: vec![single("a", true, false), single("b", false, false)],
                }),
            ],
        }),
        single("program", false, false),
    ];
    let flat: Vec<(String, bool, bool)> =
        flatten_accounts(&es).into_iter().map(|a| (a.name, a.is_mut, a.is_signer)).collect();
    assert_eq!(
        flat,
        vec![
            ("payer".to_string(), true, true),
            ("state".to_string(), true, false),
            ("a".to_string(), true, false),
            ("b".to_string(), false, false),
            ("program".to_string(), false, false),
        ]
    );
    assert!(flatten_accounts(&vec![]).is_empty());
}

#[test]
fn references_inside_wrappers() {
    let t = TypeRef::List(Box::new(TypeRef::Array(Box::new(TypeRef::Defined("X".to_string(), vec![])), 3)));
    assert_eq!(inline_defined(&t), None);
    let a = TypeRef::Array(Box::new(TypeRef::Defined("Y".to_string(), vec![])), 3);
    assert_eq!(inline_defined(&a), Some(&"Y".to_string()));
    assert_eq!(inline_defined(&TypeRef::Generic("T".to_string())), None);
    let g = TypeRef::Defined("Wrap".to_string(), vec![TypeRef::Defined("Z".to_string(), vec![])]);
    assert_eq!(inline_defined(&g), Some(&"Wrap".to_string()));
}

#[test]
fn self_reference_through_option_resolves() {
    let idl = AnchorIdl {
        name: "p".to_string(),
        version: "0".to_string(),
        metadata: None,
        accounts: None,
        types: None,
        instructions: None,
        errors: None,
        events: None,
    };
    assert_eq!(idl.find_unresolved(), None);
    assert_eq!(idl.resolve(), Ok(()));
}
