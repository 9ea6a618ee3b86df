//! The dialect-independent model of every value type an interface can name.
use vstd::prelude::*;

verus! {

/// Scalar types that map one to one onto a type of the generated client.
#[derive(Clone, Copy, Debug, PartialEq, Eq, Structural)]
pub enum PrimitiveType {
    Bool,
    U8,
    I8,
    U16,
    I16,
    U32,
    I32,
    U64,
    I64,
    U128,
    I128,
    Float32,
    Float64,
    Str,
    Bytes,
    PublicKey,
}

/// A reference to a value type. `Defined` names a declaration elsewhere in the
/// interface, with the type arguments of its generic parameters; `Generic`
/// names a type parameter of the enclosing declaration.
#[derive(Debug)]
pub enum TypeRef {
    Primitive(PrimitiveType),
    Array(Box<TypeRef>, u64),
    List(Box<TypeRef>),
    Optional(Box<TypeRef>),
    Defined(String, Vec<TypeRef>),
    Generic(String),
}

#[derive(Debug)]
pub struct Field {
    pub name: String,
    pub ty: TypeRef,
}

/// An enum variant: unit when `fields` is empty, tuple-like when the fields
/// carry empty names, struct-like otherwise.
#[derive(Debug)]
pub struct EnumVariant {
    pub name: String,
    pub fields: Vec<Field>,
}

#[derive(Debug)]
pub enum TypeDef {
    Struct(Vec<Field>),
    Enum(Vec<EnumVariant>),
}

/// A declared struct or enum, with the generic parameters it declares.
#[derive(Debug)]
pub struct NamedType {
    pub name: String,
    pub generics: Vec<String>,
    pub ty: TypeDef,
}

/// A declared account; its layout is a struct or an enum like any other type.
#[derive(Debug)]
pub struct NamedAccount {
    pub name: String,
    pub ty: TypeDef,
}

/// One account parameter of an instruction, or a nested group of them.
#[derive(Debug)]
pub enum IxAccountEntry {
    Single(IxAccount),
    Group(IxAccountGroup),
}

#[derive(Debug)]
pub struct IxAccount {
    pub name: String,
    pub is_mut: bool,
    pub is_signer: bool,
}

#[derive(Debug)]
pub struct IxAccountGroup {
    pub name: String,
    pub accounts: Vec<IxAccountEntry>,
}

#[derive(Debug)]
pub struct NamedInstruction {
    pub name: String,
    pub accounts: Vec<IxAccountEntry>,
    pub args: Vec<Field>,
}

/// An error variant; without an explicit `code` it takes the next free one.
#[derive(Debug)]
pub struct ErrorEnumVariant {
    pub code: Option<u32>,
    pub name: String,
    pub msg: Option<String>,
}

#[derive(Debug)]
pub struct Event {
    pub name: String,
    pub fields: Vec<Field>,
}

/// Whether `t` mentions the declaration named `n` anywhere inside it.
pub open spec fn mentions(t: TypeRef, n: Seq<char>) -> bool
    decreases t,
{
    match t {
        TypeRef::Primitive(_) => false,
        TypeRef::Array(e, _) => mentions(*e, n),
        TypeRef::List(e) => mentions(*e, n),
        TypeRef::Optional(e) => mentions(*e, n),
        TypeRef::Defined(m, args) => m@ == n || mentions_any(args@, n),
        TypeRef::Generic(_) => false,
    }
}

/// Whether some reference of `ts` mentions the declaration named `n`.
pub open spec fn mentions_any(ts: Seq<TypeRef>, n: Seq<char>) -> bool
    decreases ts,
{
    if ts.len() == 0 {
        false
    } else {
        mentions_any(ts.drop_last(), n) || mentions(ts.last(), n)
    }
}

/// The declaration that a value of `t` holds in place, with no list or
/// optional wrapper between: the only kind of nesting that has a size bound.
pub open spec fn inline_name(t: TypeRef) -> Option<Seq<char>>
    decreases t,
{
    match t {
        TypeRef::Array(e, _) => inline_name(*e),
        TypeRef::Defined(m, _) => Some(m@),
        _ => None,
    }
}

/// The type references that a declaration's fields and variants hold.
pub open spec fn def_holds(d: TypeDef, t: TypeRef) -> bool {
    match d {
        TypeDef::Struct(fs) => exists|j: int| 0 <= j < fs.len() && fs@[j].ty == t,
        TypeDef::Enum(vs) => exists|v: int, j: int|
            0 <= v < vs.len() && 0 <= j < vs@[v].fields.len() && vs@[v].fields@[j].ty == t,
    }
}

/// The declaration that a value of `t` holds in place, if any.
pub fn inline_defined(t: &TypeRef) -> (r: Option<&String>)
    ensures
        match r {
            Some(n) => inline_name(*t) == Some(n@),
            None => inline_name(*t) is None,
        },
    decreases t,
{
    match t {
        TypeRef::Array(e, _) => inline_defined(e),
        TypeRef::Defined(m, _) => Some(m),
        _ => None,
    }
}

} // verus!
