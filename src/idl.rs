//! The Anchor dialect's program definition and its section dispatch.
use vstd::prelude::*;
use crate::types::{ErrorEnumVariant, Event, NamedAccount, NamedInstruction, NamedType};

verus! {

/// A program definition as the Anchor dialect writes it. An absent section is
/// `None`; a present but empty one is `Some` of an empty list.
pub struct AnchorIdl {
    pub name: String,
    pub version: String,
    pub metadata: Option<Metadata>,
    pub accounts: Option<Vec<NamedAccount>>,
    pub types: Option<Vec<NamedType>>,
    pub instructions: Option<Vec<NamedInstruction>>,
    pub errors: Option<Vec<ErrorEnumVariant>>,
    pub events: Option<Vec<Event>>,
}

pub struct Metadata {
    pub address: String,
}

/// The code-emitting modules, one per section of a program definition.
#[derive(Clone, Copy, Debug, PartialEq, Eq, Structural)]
pub enum CodegenModule {
    Accounts,
    Typedefs,
    Instructions,
    Errors,
    Events,
}

/// `m` alone when the section `o` is present, nothing otherwise.
pub open spec fn when_present<T>(o: Option<T>, m: CodegenModule) -> Seq<CodegenModule> {
    if o is Some { seq![m] } else { Seq::empty() }
}

impl AnchorIdl {
    /// The modules that run on this definition, in the order they are emitted:
    /// one for each present section.
    pub open spec fn spec_modules(&self) -> Seq<CodegenModule> {
        when_present(self.accounts, CodegenModule::Accounts)
            + when_present(self.types, CodegenModule::Typedefs)
            + when_present(self.instructions, CodegenModule::Instructions)
            + when_present(self.errors, CodegenModule::Errors)
            + when_present(self.events, CodegenModule::Events)
    }

    pub fn program_name(&self) -> (r: &str)
        ensures
            r@ == self.name@,
    {
        self.name.as_str()
    }

    pub fn program_version(&self) -> (r: &str)
        ensures
            r@ == self.version@,
    {
        self.version.as_str()
    }

    pub fn program_address(&self) -> (r: Option<&str>)
        ensures
            match self.metadata {
                Some(m) => r is Some && r->0@ == m.address@,
                None => r is None,
            },
    {
        match &self.metadata {
            Some(m) => Some(m.address.as_str()),
            None => None,
        }
    }

    /// This dialect carries no marker of its own, so any definition is taken to
    /// be in it: it is the dialect to try last.
    pub fn is_correct_idl_format(&self) -> (r: bool)
        ensures
            r,
    {
        true
    }

    pub fn has_errors(&self) -> (r: bool)
        ensures
            r == self.errors is Some,
    {
        self.errors.is_some()
    }

    pub fn modules(&self) -> (r: Vec<CodegenModule>)
        ensures
            r@ == self.spec_modules(),
    {
        let mut res: Vec<CodegenModule> = Vec::new();
        if self.accounts.is_some() {
            res.push(CodegenModule::Accounts);
        }
        if self.types.is_some() {
            res.push(CodegenModule::Typedefs);
        }
        if self.instructions.is_some() {
            res.push(CodegenModule::Instructions);
        }
        if self.errors.is_some() {
            res.push(CodegenModule::Errors);
        }
        if self.events.is_some() {
            res.push(CodegenModule::Events);
        }
        assert(res@ == self.spec_modules());
        res
    }
}

/// Some named type or account of `idl` is called `n`.
pub open spec fn declares(idl: AnchorIdl, n: Seq<char>) -> bool {
    (idl.types is Some && exists|i: int|
        0 <= i < idl.types->0.len() && #[trigger] idl.types->0@[i].name@ == n) || (idl.accounts is Some
        && exists|i: int| 0 <= i < idl.accounts->0.len() && #[trigger] idl.accounts->0@[i].name@ == n)
}

/// Zero-copy encoding is asked for some declared type or account: names of
/// `zero_copy` that match no declaration do not count.
pub open spec fn zero_copy_requested(idl: AnchorIdl, zero_copy: Seq<String>) -> bool {
    exists|i: int| 0 <= i < zero_copy.len() && declares(idl, #[trigger] zero_copy[i]@)
}

impl AnchorIdl {
    /// Whether some named type or account is called `n`.
    pub fn declares_name(&self, n: &String) -> (r: bool)
        ensures
            r == declares(*self, n@),
    {
        match &self.types {
            Some(v) => {
                let mut i: usize = 0;
                while i < v.len()
                    invariant
                        self.types == Some(*v),
                        i <= v.len(),
                        forall|k: int| 0 <= k < i ==> #[trigger] v@[k].name@ != n@,
                    decreases v.len() - i,
                {
                    if v[i].name == *n {
                        return true;
                    }
                    i += 1;
                }
            },
            None => {},
        }
        match &self.accounts {
            Some(v) => {
                let mut i: usize = 0;
                while i < v.len()
                    invariant
                        self.accounts == Some(*v),
                        i <= v.len(),
                        forall|k: int| 0 <= k < i ==> #[trigger] v@[k].name@ != n@,
                    decreases v.len() - i,
                {
                    if v[i].name == *n {
                        return true;
                    }
                    i += 1;
                }
            },
            None => {},
        }
        false
    }

    /// Whether some name of `zero_copy` is that of a declared type or account.
    pub fn uses_zero_copy(&self, zero_copy: &Vec<String>) -> (r: bool)
        ensures
            r == zero_copy_requested(*self, zero_copy@),
    {
        let mut i: usize = 0;
        while i < zero_copy.len()
            invariant
                i <= zero_copy.len(),
                forall|k: int| 0 <= k < i ==> !declares(*self, #[trigger] zero_copy@[k]@),
            decreases zero_copy.len() - i,
        {
            if self.declares_name(&zero_copy[i]) {
                return true;
            }
            i += 1;
        }
        false
    }
}

/// A definition with no section beyond its name and version runs no module:
/// the module set, and so the set of emitted source units, is empty.
pub proof fn lemma_bare_definition_runs_no_module(idl: AnchorIdl)
    requires
        idl.accounts is None,
        idl.types is None,
        idl.instructions is None,
        idl.errors is None,
        idl.events is None,
    ensures
        idl.spec_modules() =~= Seq::<CodegenModule>::empty(),
{
}

} // verus!
