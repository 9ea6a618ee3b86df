use solores::discm::{discriminator, find_collision};
use solores::errors::error_codes;
use solores::idl::{AnchorIdl, CodegenModule, Metadata};
use solores::resolver::IdlError;
use solores::types::{
    EnumVariant, ErrorEnumVariant, Event, Field, IxAccount, IxAccountEntry, NamedAccount,
    NamedInstruction, NamedType, PrimitiveType, TypeDef, TypeRef,
};

fn bare(name: &str) -> AnchorIdl {
    AnchorIdl {
        name: name.to_string(),
        version: "0.1.0".to_string(),
        metadata: None,
        accounts: None,
        types: None,
        instructions: None,
        errors: None,
        events: None,
    }
}

fn field(name: &str, ty: TypeRef) -> Field {
    Field { name: name.to_string(), ty }
}

fn defined(name: &str) -> TypeRef {
    TypeRef::Defined(name.to_string(), vec![])
}

fn strukt(name: &str, fields: Vec<Field>) -> NamedType {
    NamedType { name: name.to_string(), generics: vec![], ty: TypeDef::Struct(fields) }
}

fn error(code: Option<u32>, name: &str) -> ErrorEnumVariant {
    ErrorEnumVariant { code, name: name.to_string(), msg: None }
}

fn counter_idl() -> AnchorIdl {
    let mut idl = bare("counter");
    idl.accounts = Some(vec![NamedAccount {
        name: "Counter".to_string(),
        ty: TypeDef::Struct(vec![field("count", TypeRef::Primitive(PrimitiveType::U64))]),
    }]);
    idl.instructions = Some(vec![NamedInstruction {
        name: "Increment".to_string(),
        accounts: vec![IxAccountEntry::Single(IxAccount {
            name: "counter".to_string(),
            is_mut: true,
            is_signer: false,
        })],
        args: vec![],
    }]);
    idl.errors = Some(vec![ErrorEnumVariant {
        code: Some(1),
        name: "Overflow".to_string(),
        msg: Some("counter overflow".to_string()),
    }]);
    idl
}

#[test]
fn bare_definition_runs_no_module() {
    let idl = bare("empty");
    assert!(idl.modules().is_empty());
    assert!(!idl.has_errors());
    let plan = idl.plan(&vec![]).unwrap();
    assert!(plan.modules.is_empty());
    assert!(!plan.flags.has_errors);
    assert!(!plan.flags.uses_zero_copy);
}

#[test]
fn empty_sections_still_run_their_modules() {
    let mut idl = bare("p");
    idl.errors = Some(vec![]);
    idl.events = Some(vec![]);
    assert_eq!(idl.modules(), vec![CodegenModule::Errors, CodegenModule::Events]);
    assert!(idl.has_errors());
}

#[test]
fn modules_follow_section_order() {
    let mut idl = bare("p");
    idl.events = Some(vec![Event { name: "E".to_string(), fields: vec![] }]);
    idl.types = Some(vec![]);
    idl.accounts = Some(vec![]);
    idl.instructions = Some(vec![]);
    idl.errors = Some(vec![]);
    assert_eq!(
        idl.modules(),
        vec![
            CodegenModule::Accounts,
            CodegenModule::Typedefs,
            CodegenModule::Instructions,
            CodegenModule::Errors,
            CodegenModule::Events,
        ]
    );
}

#[test]
fn getters_report_the_definition() {
    let mut idl = bare("prog");
    assert_eq!(idl.program_name(), "prog");
    assert_eq!(idl.program_version(), "0.1.0");
    assert_eq!(idl.program_address(), None);
    assert!(idl.is_correct_idl_format());
    idl.metadata = Some(Metadata { address: "Prog1111".to_string() });
    assert_eq!(idl.program_address(), Some("Prog1111"));
}

#[test]
fn direct_mutual_nesting_is_cyclic() {
    let mut idl = bare("p");
    idl.types = Some(vec![
        strukt("A", vec![field("b", defined("B"))]),
        strukt("B", vec![field("a", defined("A"))]),
    ]);
    assert_eq!(idl.resolve(), Err(IdlError::CyclicTypeDefinition("A".to_string())));
    assert!(matches!(idl.plan(&vec![]), Err(IdlError::CyclicTypeDefinition(_))));
}

#[test]
fn optional_indirection_breaks_the_cycle() {
    let mut idl = bare("p");
    idl.types = Some(vec![
        strukt("A", vec![field("b", TypeRef::Optional(Box::new(defined("B"))))]),
        strukt("B", vec![field("a", defined("A"))]),
    ]);
    assert_eq!(idl.resolve(), Ok(()));
}

#[test]
fn list_indirection_breaks_self_nesting() {
    let mut idl = bare("p");
    idl.types = Some(vec![strukt("Node", vec![field("kids", TypeRef::List(Box::new(defined("Node"))))])]);
    assert_eq!(idl.resolve(), Ok(()));
}

#[test]
fn fixed_array_does_not_break_self_nesting() {
    let mut idl = bare("p");
    idl.types = Some(vec![strukt("Node", vec![field("kids", TypeRef::Array(Box::new(defined("Node")), 2))])]);
    assert_eq!(idl.resolve(), Err(IdlError::CyclicTypeDefinition("Node".to_string())));
}

#[test]
fn enum_payload_cycle_through_account() {
    let mut idl = bare("p");
    idl.types = Some(vec![NamedType {
        name: "Shape".to_string(),
        generics: vec![],
        ty: TypeDef::Enum(vec![
            EnumVariant { name: "Empty".to_string(), fields: vec![] },
            EnumVariant { name: "Holder".to_string(), fields: vec![field("", defined("Vault"))] },
        ]),
    }]);
    idl.accounts = Some(vec![NamedAccount {
        name: "Vault".to_string(),
        ty: TypeDef::Struct(vec![field("shape", defined("Shape"))]),
    }]);
    assert_eq!(idl.resolve(), Err(IdlError::CyclicTypeDefinition("Shape".to_string())));
}

#[test]
fn missing_reference_fails_the_run() {
    let mut idl = bare("p");
    idl.instructions = Some(vec![NamedInstruction {
        name: "Go".to_string(),
        accounts: vec![],
        args: vec![field("x", defined("Missing"))],
    }]);
    assert_eq!(idl.find_unresolved(), Some(("Missing".to_string(), "Go".to_string())));
    assert!(matches!(idl.plan(&vec![]), Err(IdlError::UnresolvedReference(n, loc)) if n == "Missing" && loc == "Go"));
}

#[test]
fn missing_reference_inside_event_list() {
    let mut idl = bare("p");
    idl.types = Some(vec![strukt("Known", vec![])]);
    idl.events = Some(vec![Event {
        name: "Moved".to_string(),
        fields: vec![
            field("a", defined("Known")),
            field("b", TypeRef::List(Box::new(TypeRef::Optional(Box::new(defined("Gone")))))),
        ],
    }]);
    assert_eq!(
        idl.resolve(),
        Err(IdlError::UnresolvedReference("Gone".to_string(), "Moved".to_string()))
    );
}

#[test]
fn counter_scenario() {
    let idl = counter_idl();
    let plan = idl.plan(&vec![]).unwrap();
    assert_eq!(
        plan.modules,
        vec![CodegenModule::Accounts, CodegenModule::Instructions, CodegenModule::Errors]
    );
    assert!(plan.flags.has_errors);
    assert!(!plan.flags.uses_zero_copy);
    assert_eq!(error_codes(idl.errors.as_ref().unwrap()), vec![1]);
    assert_eq!(discriminator("account:", "Counter"), vec![255, 176, 4, 245, 188, 253, 124, 25]);
    assert_eq!(discriminator("global:", "Increment"), vec![182, 99, 86, 126, 43, 162, 31, 43]);
}

#[test]
fn zero_copy_request_sets_its_flag() {
    let idl = counter_idl();
    let plan = idl.plan(&vec!["Counter".to_string()]).unwrap();
    assert!(plan.flags.uses_zero_copy);
    let plan = idl.plan(&vec!["Nope".to_string()]).unwrap();
    assert!(!plan.flags.uses_zero_copy);
    assert!(!idl.uses_zero_copy(&vec![]));
}

#[test]
fn discriminator_is_stable() {
    let a = discriminator("account:", "Vault");
    let b = discriminator("account:", "Vault");
    assert_eq!(a, b);
    assert_eq!(a.len(), 8);
    assert_ne!(a, discriminator("account:", "Vaults"));
    assert_ne!(a, discriminator("global:", "Vault"));
}

#[test]
fn distinct_names_do_not_collide() {
    let names = vec!["A".to_string(), "B".to_string(), "A".to_string(), "C".to_string()];
    assert_eq!(find_collision("account:", &names), None);
    assert!(counter_idl().check_discriminators().is_ok());
}

#[test]
fn error_codes_skip_claimed_ones() {
    let vs = vec![error(None, "A"), error(Some(1), "B"), error(None, "C")];
    assert_eq!(error_codes(&vs), vec![0, 1, 2]);
    let vs = vec![error(Some(0), "A"), error(None, "B"), error(Some(2), "C"), error(None, "D")];
    assert_eq!(error_codes(&vs), vec![0, 1, 2, 3]);
    let vs = vec![error(None, "A"), error(Some(0), "B"), error(Some(1), "C")];
    assert_eq!(error_codes(&vs), vec![2, 0, 1]);
    let vs = vec![error(Some(6000), "A"), error(None, "B")];
    assert_eq!(error_codes(&vs), vec![6000, 0]);
    assert_eq!(error_codes(&vec![]), Vec::<u64>::new());
}

#[test]
fn missing_reference_inside_generic_arguments() {
    let mut idl = bare("p");
    idl.types = Some(vec![NamedType {
        name: "Wrap".to_string(),
        generics: vec!["T".to_string()],
        ty: TypeDef::Struct(vec![field("inner", TypeRef::Generic("T".to_string()))]),
    }]);
    idl.accounts = Some(vec![NamedAccount {
        name: "Holder".to_string(),
        ty: TypeDef::Struct(vec![field(
            "w",
            TypeRef::Defined("Wrap".to_string(), vec![TypeRef::List(Box::new(defined("Absent")))]),
        )]),
    }]);
    assert_eq!(idl.find_unresolved(), Some(("Absent".to_string(), "Holder".to_string())));
    idl.types.as_mut().unwrap().push(strukt("Absent", vec![]));
    assert_eq!(idl.find_unresolved(), None);
    assert_eq!(idl.resolve(), Ok(()));
}
