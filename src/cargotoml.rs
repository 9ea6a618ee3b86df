//! The manifest of the generated client crate, decided from the run's
//! arguments and the program definition.
use vstd::prelude::*;
use crate::idl::{zero_copy_requested, AnchorIdl};

verus! {

/// The run's arguments that the manifest depends on. Each `*_vers` is either a
/// version requirement (`"^1.16"`) or an inline table (`"workspace = true"`).
pub struct Args {
    pub output_crate_name: String,
    pub zero_copy: Vec<String>,
    pub borsh_vers: String,
    pub solana_program_vers: String,
    pub serde_vers: String,
    pub thiserror_vers: String,
    pub num_derive_vers: String,
    pub num_traits_vers: String,
    pub bytemuck_vers: String,
}

pub struct CargoToml {
    pub package: Package,
    pub dependencies: GeneratedCrateDependencies,
}

pub struct Package {
    pub name: String,
    pub version: String,
    pub edition: String,
}

pub struct GeneratedCrateDependencies {
    pub borsh: DependencyValue,
    pub solana_program: DependencyValue,
    pub serde: OptionalDependencyValue,
    pub thiserror: Option<DependencyValue>,
    pub num_derive: Option<DependencyValue>,
    pub num_traits: Option<DependencyValue>,
    pub bytemuck: Option<BytemuckDependencyValue>,
}

/// A dependency as the version argument gives it.
pub struct DependencyValue(pub String);

/// A dependency that the generated crate marks optional.
pub struct OptionalDependencyValue(pub String);

/// The bytemuck dependency, with its `derive` feature switched on.
pub struct BytemuckDependencyValue(pub String);

/// Whether TOML reads `s` as a table of keys and values.
pub uninterp spec fn toml_table(s: Seq<char>) -> bool;

/// Relies on toml::from_str: whether `s` deserializes as a
/// `toml::map::Map<String, toml::Value>`.
#[verifier::external_body]
fn parses_as_toml_table(s: &str) -> (r: bool)
    ensures
        r == toml_table(s@),
{
    toml::from_str::<toml::map::Map<String, toml::Value>>(s).is_ok()
}

/// How a version argument is written into the manifest: as the table it
/// spells out, or as a version requirement.
#[derive(Clone, Copy, Debug, PartialEq, Eq, Structural)]
pub enum DepForm {
    Table,
    Version,
}

pub open spec fn spec_dep_form(s: Seq<char>) -> DepForm {
    if toml_table(s) { DepForm::Table } else { DepForm::Version }
}

/// The form of the version argument `s`.
pub fn dep_form(s: &str) -> (r: DepForm)
    ensures
        r == spec_dep_form(s@),
{
    if parses_as_toml_table(s) {
        DepForm::Table
    } else {
        DepForm::Version
    }
}

impl DependencyValue {
    pub fn form(&self) -> (r: DepForm)
        ensures
            r == spec_dep_form(self.0@),
    {
        dep_form(self.0.as_str())
    }
}

impl OptionalDependencyValue {
    /// The form of the version argument; `optional = true` is added to it.
    pub fn form(&self) -> (r: DepForm)
        ensures
            r == spec_dep_form(self.0@),
    {
        dep_form(self.0.as_str())
    }
}

impl BytemuckDependencyValue {
    /// The form of the version argument; `features = ["derive"]` is added to it.
    pub fn form(&self) -> (r: DepForm)
        ensures
            r == spec_dep_form(self.0@),
    {
        dep_form(self.0.as_str())
    }
}

fn copy_string(s: &String) -> (r: String)
    ensures
        r@ == s@,
{
    s.clone()
}

pub open spec fn dep_is(d: Option<DependencyValue>, present: bool, s: Seq<char>) -> bool {
    if present { d is Some && (d->0).0@ == s } else { d is None }
}

impl CargoToml {
    /// The manifest of the generated crate: the error-support crates are
    /// depended on exactly when the program declares errors, bytemuck exactly
    /// when zero-copy encoding is asked for some declared type or account.
    pub fn from_args_and_idl(args: &Args, idl: &AnchorIdl) -> (r: CargoToml)
        ensures
            r.package.name@ == args.output_crate_name@,
            r.package.version@ == idl.version@,
            r.package.edition@ == "2021"@,
            r.dependencies.borsh.0@ == args.borsh_vers@,
            r.dependencies.solana_program.0@ == args.solana_program_vers@,
            r.dependencies.serde.0@ == args.serde_vers@,
            dep_is(r.dependencies.thiserror, idl.errors is Some, args.thiserror_vers@),
            dep_is(r.dependencies.num_derive, idl.errors is Some, args.num_derive_vers@),
            dep_is(r.dependencies.num_traits, idl.errors is Some, args.num_traits_vers@),
            if !zero_copy_requested(*idl, args.zero_copy@) {
                r.dependencies.bytemuck is None
            } else {
                r.dependencies.bytemuck is Some && (r.dependencies.bytemuck->0).0@
                    == args.bytemuck_vers@
            },
    {
        let (thiserror, num_derive, num_traits) = if idl.has_errors() {
            (
                Some(DependencyValue(copy_string(&args.thiserror_vers))),
                Some(DependencyValue(copy_string(&args.num_derive_vers))),
                Some(DependencyValue(copy_string(&args.num_traits_vers))),
            )
        } else {
            (None, None, None)
        };
        let bytemuck = if !idl.uses_zero_copy(&args.zero_copy) {
            None
        } else {
            Some(BytemuckDependencyValue(copy_string(&args.bytemuck_vers)))
        };
        CargoToml {
            package: Package {
                name: copy_string(&args.output_crate_name),
                version: copy_string(&idl.version),
                edition: String::from_str("2021"),
            },
            dependencies: GeneratedCrateDependencies {
                borsh: DependencyValue(copy_string(&args.borsh_vers)),
                solana_program: DependencyValue(copy_string(&args.solana_program_vers)),
                serde: OptionalDependencyValue(copy_string(&args.serde_vers)),
                thiserror,
                num_derive,
                num_traits,
                bytemuck,
            },
        }
    }
}

} // verus!
