//! One generation run: resolution and discriminator checks first, then the
//! source unit of each module that runs, and the capability flags the
//! manifest is decided from.
use vstd::prelude::*;
use crate::accounts::{accounts_source, accounts_text};
use crate::discm::{account_names, collides, collision_pair, instruction_names};
use crate::errors::{codes_assigned, errors_source, errors_text};
use crate::events::{events_source, events_text};
use crate::idl::{zero_copy_requested, AnchorIdl, CodegenModule};
use crate::instructions::{instructions_source, instructions_text};
use crate::resolver::{all_resolved, referenced_from, decl_cyclic, decl_name, n_decls, unresolved, IdlError};
use crate::typedefs::{string_views, typedefs_source, typedefs_text};

verus! {

/// The signals that decide which optional dependencies a generated crate has.
#[derive(Clone, Copy, Debug, PartialEq, Eq, Structural)]
pub struct CapabilityFlags {
    pub has_errors: bool,
    pub uses_zero_copy: bool,
}

/// The modules that a successful run emits, and its flags.
pub struct CodegenPlan {
    pub modules: Vec<CodegenModule>,
    pub flags: CapabilityFlags,
}

/// The emitted text of one module.
pub struct SourceUnit {
    pub module: CodegenModule,
    pub text: String,
}

/// The outcome of a successful run: one source unit per module that runs.
pub struct Generated {
    pub units: Vec<SourceUnit>,
    pub flags: CapabilityFlags,
}

/// Every reference is resolved, no declaration holds itself in place, and no
/// two distinct account or instruction names share a discriminator.
pub open spec fn checks_pass(idl: AnchorIdl) -> bool {
    &&& all_resolved(idl)
    &&& forall|a: int| 0 <= a < n_decls(idl) ==> !decl_cyclic(idl, a)
    &&& !collides("account:"@, account_names(idl))
    &&& !collides("global:"@, instruction_names(idl))
}

/// `e` is the first failure of the run's stages on `idl`: unresolved
/// references, then cycles, then discriminator collisions.
pub open spec fn run_error(idl: AnchorIdl, e: IdlError) -> bool {
    match e {
        IdlError::UnresolvedReference(n, loc) => unresolved(idl, n@) && referenced_from(idl, n@, loc@),
        IdlError::CyclicTypeDefinition(n) => all_resolved(idl) && exists|a: int|
            0 <= a < n_decls(idl) && decl_name(idl, a) == n@ && decl_cyclic(idl, a),
        IdlError::DiscriminatorCollision(a, b) => {
            &&& all_resolved(idl)
            &&& forall|d: int| 0 <= d < n_decls(idl) ==> !decl_cyclic(idl, d)
            &&& (collision_pair("account:"@, account_names(idl), a@, b@) || collision_pair(
                "global:"@,
                instruction_names(idl),
                a@,
                b@,
            ))
        },
        IdlError::UnknownTypeToken(_) => false,
        IdlError::MalformedSchema(_) => false,
    }
}

pub open spec fn flags_of(idl: AnchorIdl, zero_copy: Seq<String>, f: CapabilityFlags) -> bool {
    f.has_errors == idl.errors is Some && f.uses_zero_copy == zero_copy_requested(idl, zero_copy)
}

/// The first line of the modules that take the program's name.
pub open spec fn program_header(program: Seq<char>) -> Seq<char> {
    "//! Generated for the `"@ + program + "` program.\n"@
}

/// `text` is what module `m` emits for `idl`.
pub open spec fn unit_text(idl: AnchorIdl, m: CodegenModule, zero_copy: Seq<Seq<char>>, text: Seq<char>) -> bool {
    match m {
        CodegenModule::Accounts => idl.accounts is Some && text == accounts_text(
            idl.accounts->0@,
            zero_copy,
        ),
        CodegenModule::Typedefs => idl.types is Some && text == typedefs_text(idl.types->0@, zero_copy),
        CodegenModule::Instructions => idl.instructions is Some && text == program_header(idl.name@)
            + instructions_text(idl.instructions->0@),
        CodegenModule::Errors => idl.errors is Some && exists|codes: Seq<u64>|
            codes_assigned(idl.errors->0@, codes) && text == program_header(idl.name@) + errors_text(
                idl.errors->0@,
                codes,
            ),
        CodegenModule::Events => idl.events is Some && text == events_text(idl.events->0@),
    }
}

impl AnchorIdl {
    /// Capability flags of a run over this definition that asks zero-copy
    /// encoding for the names in `zero_copy`; names that match no declared
    /// type or account are ignored.
    pub fn capability_flags(&self, zero_copy: &Vec<String>) -> (r: CapabilityFlags)
        ensures
            flags_of(*self, zero_copy@, r),
    {
        CapabilityFlags {
            has_errors: self.has_errors(),
            uses_zero_copy: self.uses_zero_copy(zero_copy),
        }
    }

    /// The stages of a run that may fail, in order.
    pub fn check(&self) -> (r: Result<(), IdlError>)
        requires
            n_decls(*self) <= usize::MAX,
        ensures
            match r {
                Ok(()) => checks_pass(*self),
                Err(e) => run_error(*self, e),
            },
    {
        match self.resolve() {
            Ok(()) => {},
            Err(e) => return Err(e),
        }
        self.check_discriminators()
    }

    /// The modules a run emits and its flags, once every check has passed.
    pub fn plan(&self, zero_copy: &Vec<String>) -> (r: Result<CodegenPlan, IdlError>)
        requires
            n_decls(*self) <= usize::MAX,
        ensures
            match r {
                Ok(p) => checks_pass(*self) && p.modules@ == self.spec_modules() && flags_of(
                    *self,
                    zero_copy@,
                    p.flags,
                ),
                Err(e) => run_error(*self, e),
            },
    {
        match self.check() {
            Ok(()) => {},
            Err(e) => return Err(e),
        }
        Ok(CodegenPlan { modules: self.modules(), flags: self.capability_flags(zero_copy) })
    }

    fn with_program_header(&self, body: String) -> (r: String)
        ensures
            r@ == program_header(self.name@) + body@,
    {
        let mut s = String::new();
        s.append("//! Generated for the `");
        s.append(self.name.as_str());
        s.append("` program.\n");
        s.append(body.as_str());
        assert(s@ =~= program_header(self.name@) + body@);
        s
    }

    fn module_source(&self, m: CodegenModule, zero_copy: &Vec<String>) -> (r: String)
        requires
            self.spec_modules().contains(m),
            self.errors is Some ==> self.errors->0.len() <= u32::MAX,
        ensures
            unit_text(*self, m, string_views(zero_copy@), r@),
    {
        match m {
            CodegenModule::Accounts => accounts_source(self.accounts.as_ref().unwrap(), zero_copy),
            CodegenModule::Typedefs => typedefs_source(self.types.as_ref().unwrap(), zero_copy),
            CodegenModule::Instructions => {
                let body = instructions_source(self.instructions.as_ref().unwrap());
                self.with_program_header(body)
            },
            CodegenModule::Errors => {
                let body = errors_source(self.errors.as_ref().unwrap());
                self.with_program_header(body)
            },
            CodegenModule::Events => events_source(self.events.as_ref().unwrap()),
        }
    }

    /// A whole run: nothing is emitted unless every check passes; then each
    /// module that runs emits its source unit, in module order.
    pub fn generate(&self, zero_copy: &Vec<String>) -> (r: Result<Generated, IdlError>)
        requires
            n_decls(*self) <= usize::MAX,
            self.errors is Some ==> self.errors->0.len() <= u32::MAX,
        ensures
            match r {
                Ok(g) => {
                    &&& checks_pass(*self)
                    &&& g.units.len() == self.spec_modules().len()
                    &&& forall|k: int|
                        0 <= k < g.units.len() ==> #[trigger] g.units@[k].module == self.spec_modules()[k]
                            && unit_text(*self, g.units@[k].module, string_views(zero_copy@), g.units@[k].text@)
                    &&& flags_of(*self, zero_copy@, g.flags)
                },
                Err(e) => run_error(*self, e),
            },
    {
        let plan = match self.plan(zero_copy) {
            Ok(p) => p,
            Err(e) => return Err(e),
        };
        let mut units: Vec<SourceUnit> = Vec::new();
        let mut k: usize = 0;
        while k < plan.modules.len()
            invariant
                plan.modules@ == self.spec_modules(),
                self.errors is Some ==> self.errors->0.len() <= u32::MAX,
                k <= plan.modules.len(),
                units.len() == k,
                forall|j: int|
                    0 <= j < k ==> #[trigger] units@[j].module == self.spec_modules()[j] && unit_text(
                        *self,
                        units@[j].module,
                        string_views(zero_copy@),
                        units@[j].text@,
                    ),
            decreases plan.modules.len() - k,
        {
            let m = plan.modules[k];
            assert(self.spec_modules()[k as int] == m);
            let text = self.module_source(m, zero_copy);
            units.push(SourceUnit { module: m, text });
            k += 1;
        }
        Ok(Generated { units, flags: plan.flags })
    }
}

} // verus!
