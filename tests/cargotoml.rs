use solores::cargotoml::{
    dep_form, Args, BytemuckDependencyValue, CargoToml, DepForm, DependencyValue,
    OptionalDependencyValue,
};
use solores::idl::AnchorIdl;
use solores::types::{NamedAccount, TypeDef};

fn args(zero_copy: Vec<String>) -> Args {
    Args {
        output_crate_name: "counter_interface".to_string(),
        zero_copy,
        borsh_vers: "^0.10".to_string(),
        solana_program_vers: "workspace = true".to_string(),
        serde_vers: "^1.0".to_string(),
        thiserror_vers: "^1.0".to_string(),
        num_derive_vers: "0.4".to_string(),
        num_traits_vers: "^0.2".to_string(),
        bytemuck_vers: "^1.13".to_string(),
    }
}

fn idl(with_errors: bool) -> AnchorIdl {
    AnchorIdl {
        name: "counter".to_string(),
        version: "1.2.3".to_string(),
        metadata: None,
        accounts: Some(vec![NamedAccount { name: "Counter".to_string(), ty: TypeDef::Struct(vec![]) }]),
        types: None,
        instructions: None,
        errors: if with_errors { Some(vec![]) } else { None },
        events: None,
    }
}

#[test]
fn manifest_without_errors_or_zero_copy() {
    let a = args(vec![]);
    let m = CargoToml::from_args_and_idl(&a, &idl(false));
    assert_eq!(m.package.name, "counter_interface");
    assert_eq!(m.package.version, "1.2.3");
    assert_eq!(m.package.edition, "2021");
    assert_eq!(m.dependencies.borsh.0, "^0.10");
    assert_eq!(m.dependencies.solana_program.0, "workspace = true");
    assert_eq!(m.dependencies.serde.0, "^1.0");
    assert!(m.dependencies.thiserror.is_none());
    assert!(m.dependencies.num_derive.is_none());
    assert!(m.dependencies.num_traits.is_none());
    assert!(m.dependencies.bytemuck.is_none());
}

#[test]
fn manifest_with_errors_and_zero_copy() {
    let a = args(vec!["Counter".to_string()]);
    let m = CargoToml::from_args_and_idl(&a, &idl(true));
    assert_eq!(m.dependencies.thiserror.unwrap().0, "^1.0");
    assert_eq!(m.dependencies.num_derive.unwrap().0, "0.4");
    assert_eq!(m.dependencies.num_traits.unwrap().0, "^0.2");
    assert_eq!(m.dependencies.bytemuck.unwrap().0, "^1.13");
}

#[test]
fn version_argument_forms() {
    assert_eq!(dep_form("workspace = true"), DepForm::Table);
    assert_eq!(dep_form("version = \"1\"\nfeatures = [\"x\"]"), DepForm::Table);
    assert_eq!(dep_form("^1.16"), DepForm::Version);
    assert_eq!(dep_form("0.4"), DepForm::Version);
    assert_eq!(DependencyValue("workspace = true".to_string()).form(), DepForm::Table);
    assert_eq!(OptionalDependencyValue("^1.0".to_string()).form(), DepForm::Version);
    assert_eq!(BytemuckDependencyValue("^1.13".to_string()).form(), DepForm::Version);
}

#[test]
fn zero_copy_names_that_match_nothing_add_no_bytemuck() {
    let a = args(vec!["Nope".to_string()]);
    let m = CargoToml::from_args_and_idl(&a, &idl(true));
    assert!(m.dependencies.bytemuck.is_none());
    let mut bare = idl(false);
    bare.accounts = None;
    let m = CargoToml::from_args_and_idl(&args(vec!["Counter".to_string()]), &bare);
    assert!(m.dependencies.bytemuck.is_none());
}
