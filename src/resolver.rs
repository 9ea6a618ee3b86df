//! Closing every defined-type reference of a program definition over its
//! declarations, and rejecting declarations that contain themselves in place.
use vstd::prelude::*;
use crate::graph::{edge, first_on_cycle, graph_wf, is_walk, on_cycle};
use crate::idl::AnchorIdl;
use crate::types::{
    def_holds, inline_defined, inline_name, mentions, mentions_any, Field, TypeDef, TypeRef,
};

verus! {

/// Why a program definition is refused.
#[derive(Debug, PartialEq, Eq)]
pub enum IdlError {
    /// A required field of the schema document is missing or has the wrong
    /// shape; holds the field's path.
    MalformedSchema(String),
    /// A type token that names no type of the model.
    UnknownTypeToken(String),
    /// A defined-type reference that names no declaration: the missing name,
    /// then the declaration, instruction or event whose fields refer to it.
    UnresolvedReference(String, String),
    /// A declaration that holds itself in place, with no list or optional
    /// wrapper on the way.
    CyclicTypeDefinition(String),
    /// Two declared names that get the same discriminator.
    DiscriminatorCollision(String, String),
}

pub open spec fn n_types(idl: AnchorIdl) -> int {
    match idl.types {
        Some(v) => v.len() as int,
        None => 0,
    }
}

pub open spec fn n_accounts(idl: AnchorIdl) -> int {
    match idl.accounts {
        Some(v) => v.len() as int,
        None => 0,
    }
}

/// Declarations are the named types followed by the accounts.
pub open spec fn n_decls(idl: AnchorIdl) -> int {
    n_types(idl) + n_accounts(idl)
}

pub open spec fn decl_name(idl: AnchorIdl, i: int) -> Seq<char> {
    if i < n_types(idl) {
        idl.types->0@[i].name@
    } else {
        idl.accounts->0@[i - n_types(idl)].name@
    }
}

pub open spec fn decl_def(idl: AnchorIdl, i: int) -> TypeDef {
    if i < n_types(idl) {
        idl.types->0@[i].ty
    } else {
        idl.accounts->0@[i - n_types(idl)].ty
    }
}

pub open spec fn declared(idl: AnchorIdl, n: Seq<char>) -> bool {
    exists|i: int| 0 <= i < n_decls(idl) && #[trigger] decl_name(idl, i) == n
}

pub open spec fn fields_hold(fs: Seq<Field>, t: TypeRef) -> bool {
    exists|j: int| 0 <= j < fs.len() && fs[j].ty == t
}

/// `t` stands somewhere in the definition: in a declaration, an instruction's
/// arguments or an event's fields.
pub open spec fn site(idl: AnchorIdl, t: TypeRef) -> bool {
    (exists|i: int| 0 <= i < n_decls(idl) && #[trigger] def_holds(decl_def(idl, i), t))
        || (idl.instructions is Some && exists|i: int|
        0 <= i < idl.instructions->0.len() && #[trigger] fields_hold(
            idl.instructions->0@[i].args@,
            t,
        )) || (idl.events is Some && exists|i: int|
        0 <= i < idl.events->0.len() && #[trigger] fields_hold(idl.events->0@[i].fields@, t))
}

/// `n` is referred to somewhere and declared nowhere.
pub open spec fn unresolved(idl: AnchorIdl, n: Seq<char>) -> bool {
    !declared(idl, n) && exists|t: TypeRef| #[trigger] site(idl, t) && mentions(t, n)
}

/// The declaration, instruction or event named `loc` holds a reference that
/// mentions `n`.
pub open spec fn referenced_from(idl: AnchorIdl, n: Seq<char>, loc: Seq<char>) -> bool {
    (exists|i: int, t: TypeRef|
        0 <= i < n_decls(idl) && decl_name(idl, i) == loc && #[trigger] def_holds(decl_def(idl, i), t)
            && mentions(t, n)) || (idl.instructions is Some && exists|i: int, t: TypeRef|
        0 <= i < idl.instructions->0.len() && idl.instructions->0@[i].name@ == loc
            && #[trigger] fields_hold(idl.instructions->0@[i].args@, t) && mentions(t, n)) || (
    idl.events is Some && exists|i: int, t: TypeRef|
        0 <= i < idl.events->0.len() && idl.events->0@[i].name@ == loc && #[trigger] fields_hold(
            idl.events->0@[i].fields@,
            t,
        ) && mentions(t, n))
}

pub open spec fn all_resolved(idl: AnchorIdl) -> bool {
    forall|t: TypeRef, n: Seq<char>| #[trigger] site(idl, t) && #[trigger] mentions(t, n) ==> declared(idl, n)
}

/// Declaration `a` holds a value of declaration `b` in place.
pub open spec fn decl_edge(idl: AnchorIdl, a: int, b: int) -> bool {
    0 <= a < n_decls(idl) && 0 <= b < n_decls(idl) && exists|t: TypeRef|
        #[trigger] def_holds(decl_def(idl, a), t) && inline_name(t) == Some(decl_name(idl, b))
}

pub open spec fn is_decl_walk(idl: AnchorIdl, p: Seq<int>) -> bool {
    p.len() >= 2 && forall|i: int| 0 <= i < p.len() - 1 ==> #[trigger] decl_edge(idl, p[i], p[i + 1])
}

/// Declaration `a` holds itself in place, through one declaration or more.
pub open spec fn decl_cyclic(idl: AnchorIdl, a: int) -> bool {
    exists|p: Seq<int>| #[trigger] is_decl_walk(idl, p) && p[0] == a && p.last() == a
}

fn decl_at(idl: &AnchorIdl, i: usize) -> (r: (&String, &TypeDef))
    requires
        i < n_decls(*idl),
    ensures
        r.0@ == decl_name(*idl, i as int),
        *r.1 == decl_def(*idl, i as int),
{
    match &idl.types {
        Some(v) if i < v.len() => (&v[i].name, &v[i].ty),
        _ => {
            let nt: usize = match &idl.types {
                Some(v) => v.len(),
                None => 0,
            };
            let a = &idl.accounts.as_ref().unwrap()[i - nt];
            (&a.name, &a.ty)
        },
    }
}

fn decl_count(idl: &AnchorIdl) -> (r: usize)
    requires
        n_decls(*idl) <= usize::MAX,
    ensures
        r == n_decls(*idl),
{
    let nt: usize = match &idl.types {
        Some(v) => v.len(),
        None => 0,
    };
    let na: usize = match &idl.accounts {
        Some(v) => v.len(),
        None => 0,
    };
    nt + na
}

fn is_declared(idl: &AnchorIdl, n: &String) -> (r: bool)
    requires
        n_decls(*idl) <= usize::MAX,
    ensures
        r == declared(*idl, n@),
{
    let count = decl_count(idl);
    let mut i: usize = 0;
    while i < count
        invariant
            count == n_decls(*idl),
            i <= count,
            forall|k: int| 0 <= k < i ==> decl_name(*idl, k) != n@,
        decreases count - i,
    {
        let (name, _) = decl_at(idl, i);
        if *name == *n {
            return true;
        }
        i += 1;
    }
    false
}

/// A name that `t` mentions and no declaration has, if any.
fn unresolved_in_type(idl: &AnchorIdl, t: &TypeRef) -> (r: Option<String>)
    requires
        n_decls(*idl) <= usize::MAX,
    ensures
        match r {
            Some(n) => !declared(*idl, n@) && mentions(*t, n@),
            None => forall|m: Seq<char>| #[trigger] mentions(*t, m) ==> declared(*idl, m),
        },
    decreases t,
{
    match t {
        TypeRef::Array(e, _) | TypeRef::List(e) | TypeRef::Optional(e) => {
            let r = unresolved_in_type(idl, e);
            assert(forall|m: Seq<char>| #[trigger] mentions(*t, m) == mentions(**e, m));
            r
        },
        TypeRef::Defined(name, args) => {
            if !is_declared(idl, name) {
                let c: String = name.clone();
                assert(mentions(*t, c@));
                return Some(c);
            }
            let r = unresolved_in_args(idl, args);
            assert(forall|m: Seq<char>| #[trigger] mentions(*t, m) == (name@ == m || mentions_any(args@, m)));
            r
        },
        _ => None,
    }
}

fn unresolved_in_args(idl: &AnchorIdl, args: &Vec<TypeRef>) -> (r: Option<String>)
    requires
        n_decls(*idl) <= usize::MAX,
    ensures
        match r {
            Some(n) => !declared(*idl, n@) && mentions_any(args@, n@),
            None => forall|m: Seq<char>| #[trigger] mentions_any(args@, m) ==> declared(*idl, m),
        },
    decreases args,
{
    let mut i: usize = 0;
    while i < args.len()
        invariant
            n_decls(*idl) <= usize::MAX,
            i <= args.len(),
            forall|m: Seq<char>| #[trigger] mentions_any(args@.take(i as int), m) ==> declared(*idl, m),
        decreases args.len() - i,
    {
        assert(args@.take(i + 1).drop_last() =~= args@.take(i as int));
        assert(args@.take(i + 1).last() == args@[i as int]);
        let r = unresolved_in_type(idl, &args[i]);
        match r {
            Some(n) => {
                proof {
                    lemma_mentions_any_prefix(args@, i as int + 1, n@);
                }
                return Some(n);
            },
            None => {},
        }
        assert forall|m: Seq<char>| #[trigger] mentions_any(args@.take(i + 1), m) implies declared(
            *idl,
            m,
        ) by {
            assert(mentions_any(args@.take(i + 1), m) == (mentions_any(args@.take(i as int), m)
                || mentions(args@[i as int], m)));
        }
        i += 1;
    }
    assert(args@.take(i as int) =~= args@);
    None
}

proof fn lemma_mentions_any_prefix(ts: Seq<TypeRef>, k: int, n: Seq<char>)
    requires
        0 <= k <= ts.len(),
        mentions_any(ts.take(k), n),
    ensures
        mentions_any(ts, n),
    decreases ts.len() - k,
{
    if k < ts.len() {
        assert(ts.take(k + 1).drop_last() =~= ts.take(k));
        lemma_mentions_any_prefix(ts, k + 1, n);
    } else {
        assert(ts.take(k) =~= ts);
    }
}

fn unresolved_in_fields(idl: &AnchorIdl, fs: &Vec<Field>) -> (r: Option<String>)
    requires
        n_decls(*idl) <= usize::MAX,
    ensures
        match r {
            Some(n) => !declared(*idl, n@) && exists|j: int|
                0 <= j < fs.len() && #[trigger] mentions(fs@[j].ty, n@),
            None => forall|j: int, m: Seq<char>|
                0 <= j < fs.len() && #[trigger] mentions(fs@[j].ty, m) ==> declared(*idl, m),
        },
{
    let mut j: usize = 0;
    while j < fs.len()
        invariant
            n_decls(*idl) <= usize::MAX,
            j <= fs.len(),
            forall|k: int, m: Seq<char>|
                0 <= k < j && #[trigger] mentions(fs@[k].ty, m) ==> declared(*idl, m),
        decreases fs.len() - j,
    {
        match unresolved_in_type(idl, &fs[j].ty) {
            Some(n) => {
                assert(mentions(fs@[j as int].ty, n@));
                return Some(n);
            },
            None => {},
        }
        j += 1;
    }
    None
}

fn unresolved_in_def(idl: &AnchorIdl, d: &TypeDef) -> (r: Option<String>)
    requires
        n_decls(*idl) <= usize::MAX,
    ensures
        match r {
            Some(n) => !declared(*idl, n@) && exists|t: TypeRef|
                #[trigger] def_holds(*d, t) && mentions(t, n@),
            None => forall|t: TypeRef, m: Seq<char>|
                #[trigger] def_holds(*d, t) && #[trigger] mentions(t, m) ==> declared(*idl, m),
        },
{
    match d {
        TypeDef::Struct(fs) => {
            let r = unresolved_in_fields(idl, fs);
            match &r {
                Some(n) => {
                    let ghost j = choose|j: int| 0 <= j < fs.len() && #[trigger] mentions(fs@[j].ty, n@);
                    assert(def_holds(*d, fs@[j].ty));
                },
                None => {},
            }
            r
        },
        TypeDef::Enum(vs) => {
            let mut v: usize = 0;
            while v < vs.len()
                invariant
                    n_decls(*idl) <= usize::MAX,
                    *d == TypeDef::Enum(*vs),
                    v <= vs.len(),
                    forall|k: int, j: int, m: Seq<char>|
                        0 <= k < v && 0 <= j < vs@[k].fields.len() && #[trigger] mentions(
                            vs@[k].fields@[j].ty,
                            m,
                        ) ==> declared(*idl, m),
                decreases vs.len() - v,
            {
                let r = unresolved_in_fields(idl, &vs[v].fields);
                match &r {
                    Some(n) => {
                        let ghost j = choose|j: int|
                            0 <= j < vs@[v as int].fields.len() && #[trigger] mentions(
                                vs@[v as int].fields@[j].ty,
                                n@,
                            );
                        assert(def_holds(*d, vs@[v as int].fields@[j].ty));
                        return r;
                    },
                    None => {},
                }
                v += 1;
            }
            None
        },
    }
}

fn fields_hold_in_place(fs: &Vec<Field>, n: &String) -> (r: bool)
    ensures
        r == exists|j: int| 0 <= j < fs.len() && inline_name(#[trigger] fs@[j].ty) == Some(n@),
{
    let mut j: usize = 0;
    while j < fs.len()
        invariant
            j <= fs.len(),
            forall|k: int| 0 <= k < j ==> inline_name(#[trigger] fs@[k].ty) != Some(n@),
        decreases fs.len() - j,
    {
        match inline_defined(&fs[j].ty) {
            Some(m) => {
                if *m == *n {
                    return true;
                }
            },
            None => {},
        }
        j += 1;
    }
    false
}

/// Whether `d` holds a value of the declaration named `n` in place.
fn holds_in_place(d: &TypeDef, n: &String) -> (r: bool)
    ensures
        r == exists|t: TypeRef| #[trigger] def_holds(*d, t) && inline_name(t) == Some(n@),
{
    match d {
        TypeDef::Struct(fs) => {
            let r = fields_hold_in_place(fs, n);
            if r {
                let ghost j = choose|j: int|
                    0 <= j < fs.len() && inline_name(#[trigger] fs@[j].ty) == Some(n@);
                assert(def_holds(*d, fs@[j].ty));
            }
            r
        },
        TypeDef::Enum(vs) => {
            let mut v: usize = 0;
            while v < vs.len()
                invariant
                    *d == TypeDef::Enum(*vs),
                    v <= vs.len(),
                    forall|k: int, j: int|
                        0 <= k < v && 0 <= j < vs@[k].fields.len() ==> inline_name(
                            #[trigger] vs@[k].fields@[j].ty,
                        ) != Some(n@),
                decreases vs.len() - v,
            {
                if fields_hold_in_place(&vs[v].fields, n) {
                    let ghost j = choose|j: int|
                        0 <= j < vs@[v as int].fields.len() && inline_name(
                            #[trigger] vs@[v as int].fields@[j].ty,
                        ) == Some(n@);
                    assert(def_holds(*d, vs@[v as int].fields@[j].ty));
                    return true;
                }
                v += 1;
            }
            false
        },
    }
}

/// The matrix of in-place holding between declarations, by index.
fn dependency_graph(idl: &AnchorIdl) -> (g: Vec<Vec<bool>>)
    requires
        n_decls(*idl) <= usize::MAX,
    ensures
        g.len() == n_decls(*idl),
        graph_wf(g@),
        forall|a: int, b: int| edge(g@, a, b) <==> decl_edge(*idl, a, b),
{
    let count = decl_count(idl);
    let mut g: Vec<Vec<bool>> = Vec::new();
    while g.len() < count
        invariant
            count == n_decls(*idl),
            g.len() <= count,
            forall|a: int| 0 <= a < g.len() ==> #[trigger] g[a].len() == count,
            forall|a: int, b: int|
                0 <= a < g.len() && 0 <= b < count ==> (g[a]@[b] <==> decl_edge(*idl, a, b)),
        decreases count - g.len(),
    {
        let (_, d) = decl_at(idl, g.len());
        let ghost a = g.len() as int;
        let mut row: Vec<bool> = Vec::new();
        while row.len() < count
            invariant
                count == n_decls(*idl),
                a == g.len() < count,
                *d == decl_def(*idl, a),
                row.len() <= count,
                forall|b: int| 0 <= b < row.len() ==> (row@[b] <==> decl_edge(*idl, a, b)),
            decreases count - row.len(),
        {
            let (name, _) = decl_at(idl, row.len());
            row.push(holds_in_place(d, name));
        }
        g.push(row);
    }
    g
}

proof fn lemma_walks_agree(idl: AnchorIdl, g: Seq<Vec<bool>>, p: Seq<int>)
    requires
        forall|a: int, b: int| edge(g, a, b) <==> decl_edge(idl, a, b),
    ensures
        is_walk(g, p) <==> is_decl_walk(idl, p),
{
    if is_walk(g, p) {
        assert forall|i: int| 0 <= i < p.len() - 1 implies #[trigger] decl_edge(idl, p[i], p[i + 1]) by {
            assert(edge(g, p[i], p[i + 1]));
        }
    }
    if is_decl_walk(idl, p) {
        assert forall|i: int| 0 <= i < p.len() - 1 implies #[trigger] edge(g, p[i], p[i + 1]) by {
            assert(decl_edge(idl, p[i], p[i + 1]));
        }
    }
}

impl AnchorIdl {
    /// A name that some reference uses and no declaration has, if any.
    pub fn find_unresolved(&self) -> (r: Option<(String, String)>)
        requires
            n_decls(*self) <= usize::MAX,
        ensures
            match r {
                Some((n, loc)) => unresolved(*self, n@) && referenced_from(*self, n@, loc@),
                None => all_resolved(*self),
            },
    {
        let count = decl_count(self);
        let mut i: usize = 0;
        while i < count
            invariant
                count == n_decls(*self),
                i <= count,
                forall|k: int, t: TypeRef, m: Seq<char>|
                    0 <= k < i && #[trigger] def_holds(decl_def(*self, k), t) && #[trigger] mentions(t, m)
                        ==> declared(*self, m),
            decreases count - i,
        {
            let (name, d) = decl_at(self, i);
            let r = unresolved_in_def(self, d);
            match r {
                Some(n) => {
                    let ghost t = choose|t: TypeRef| #[trigger] def_holds(*d, t) && mentions(t, n@);
                    assert(def_holds(decl_def(*self, i as int), t));
                    assert(site(*self, t));
                    let loc: String = name.clone();
                    assert(referenced_from(*self, n@, loc@));
                    return Some((n, loc));
                },
                None => {},
            }
            i += 1;
        }
        match &self.instructions {
            Some(ixs) => {
                let mut i: usize = 0;
                while i < ixs.len()
                    invariant
                        self.instructions == Some(*ixs),
                        n_decls(*self) <= usize::MAX,
                        i <= ixs.len(),
                        forall|k: int, t: TypeRef, m: Seq<char>|
                            0 <= k < i && #[trigger] fields_hold(ixs@[k].args@, t) && #[trigger] mentions(t, m)
                                ==> declared(*self, m),
                    decreases ixs.len() - i,
                {
                    let r = unresolved_in_fields(self, &ixs[i].args);
                    match r {
                        Some(n) => {
                            let ghost j = choose|j: int|
                                0 <= j < ixs@[i as int].args.len() && #[trigger] mentions(
                                    ixs@[i as int].args@[j].ty,
                                    n@,
                                );
                            assert(fields_hold(ixs@[i as int].args@, ixs@[i as int].args@[j].ty));
                            assert(fields_hold(
                                self.instructions->0@[i as int].args@,
                                ixs@[i as int].args@[j].ty,
                            ));
                            assert(site(*self, ixs@[i as int].args@[j].ty));
                            let loc: String = ixs[i].name.clone();
                            assert(referenced_from(*self, n@, loc@));
                            return Some((n, loc));
                        },
                        None => {},
                    }
                    i += 1;
                }
            },
            None => {},
        }
        match &self.events {
            Some(evs) => {
                let mut i: usize = 0;
                while i < evs.len()
                    invariant
                        self.events == Some(*evs),
                        n_decls(*self) <= usize::MAX,
                        i <= evs.len(),
                        forall|k: int, t: TypeRef, m: Seq<char>|
                            0 <= k < i && #[trigger] fields_hold(evs@[k].fields@, t) && #[trigger] mentions(t, m)
                                ==> declared(*self, m),
                    decreases evs.len() - i,
                {
                    let r = unresolved_in_fields(self, &evs[i].fields);
                    match r {
                        Some(n) => {
                            let ghost j = choose|j: int|
                                0 <= j < evs@[i as int].fields.len() && #[trigger] mentions(
                                    evs@[i as int].fields@[j].ty,
                                    n@,
                                );
                            assert(fields_hold(evs@[i as int].fields@, evs@[i as int].fields@[j].ty));
                            assert(fields_hold(
                                self.events->0@[i as int].fields@,
                                evs@[i as int].fields@[j].ty,
                            ));
                            assert(site(*self, evs@[i as int].fields@[j].ty));
                            let loc: String = evs[i].name.clone();
                            assert(referenced_from(*self, n@, loc@));
                            return Some((n, loc));
                        },
                        None => {},
                    }
                    i += 1;
                }
            },
            None => {},
        }
        None
    }

    /// Checks that every reference is resolved and that no declaration holds
    /// itself in place. The unresolved name is reported first.
    pub fn resolve(&self) -> (r: Result<(), IdlError>)
        requires
            n_decls(*self) <= usize::MAX,
        ensures
            match r {
                Ok(()) => all_resolved(*self) && forall|a: int|
                    0 <= a < n_decls(*self) ==> !decl_cyclic(*self, a),
                Err(IdlError::UnresolvedReference(n, loc)) => unresolved(*self, n@) && referenced_from(
                    *self,
                    n@,
                    loc@,
                ),
                Err(IdlError::CyclicTypeDefinition(n)) => all_resolved(*self) && exists|a: int|
                    0 <= a < n_decls(*self) && decl_name(*self, a) == n@ && decl_cyclic(*self, a),
                Err(_) => false,
            },
    {
        match self.find_unresolved() {
            Some((n, loc)) => return Err(IdlError::UnresolvedReference(n, loc)),
            None => {},
        }
        let g = dependency_graph(self);
        match first_on_cycle(&g) {
            Some(a) => {
                let (name, _) = decl_at(self, a);
                proof {
                    let p = choose|p: Seq<int>| #[trigger] is_walk(g@, p) && p[0] == a && p.last() == a;
                    lemma_walks_agree(*self, g@, p);
                }
                let c: String = name.clone();
                Err(IdlError::CyclicTypeDefinition(c))
            },
            None => {
                assert forall|a: int| 0 <= a < n_decls(*self) implies !decl_cyclic(*self, a) by {
                    if decl_cyclic(*self, a) {
                        let p = choose|p: Seq<int>| #[trigger] is_decl_walk(*self, p) && p[0] == a && p.last() == a;
                        lemma_walks_agree(*self, g@, p);
                        assert(on_cycle(g@, a));
                    }
                }
                Ok(())
            },
        }
    }
}

} // verus!
