//! The scalar type tokens of the Anchor dialect.
use vstd::prelude::*;
use vstd::utf8::{decode_utf8, encode_utf8, encode_utf8_decode_utf8};
use crate::resolver::IdlError;
use crate::types::PrimitiveType;

verus! {

/// Whether two strings hold the same characters, compared by their bytes.
pub fn str_eq(a: &str, b: &str) -> (r: bool)
    ensures
        r == (a@ == b@),
{
    let x = a.as_bytes();
    let y = b.as_bytes();
    proof {
        encode_utf8_decode_utf8(a@);
        encode_utf8_decode_utf8(b@);
    }
    if x.len() != y.len() {
        return false;
    }
    let mut i: usize = 0;
    while i < x.len()
        invariant
            x@ == encode_utf8(a@),
            y@ == encode_utf8(b@),
            decode_utf8(x@) == a@,
            decode_utf8(y@) == b@,
            x@.len() == y@.len(),
            i <= x@.len(),
            forall|k: int| 0 <= k < i ==> x@[k] == y@[k],
        decreases x.len() - i,
    {
        if x[i] != y[i] {
            assert(x@ != y@);
            return false;
        }
        i += 1;
    }
    assert(x@ =~= y@);
    true
}

/// The scalar type that a type token names, if it names one.
pub open spec fn primitive_of(tok: Seq<char>) -> Option<PrimitiveType> {
    if tok == "bool"@ {
        Some(PrimitiveType::Bool)
    } else if tok == "u8"@ {
        Some(PrimitiveType::U8)
    } else if tok == "i8"@ {
        Some(PrimitiveType::I8)
    } else if tok == "u16"@ {
        Some(PrimitiveType::U16)
    } else if tok == "i16"@ {
        Some(PrimitiveType::I16)
    } else if tok == "u32"@ {
        Some(PrimitiveType::U32)
    } else if tok == "i32"@ {
        Some(PrimitiveType::I32)
    } else if tok == "u64"@ {
        Some(PrimitiveType::U64)
    } else if tok == "i64"@ {
        Some(PrimitiveType::I64)
    } else if tok == "u128"@ {
        Some(PrimitiveType::U128)
    } else if tok == "i128"@ {
        Some(PrimitiveType::I128)
    } else if tok == "f32"@ {
        Some(PrimitiveType::Float32)
    } else if tok == "f64"@ {
        Some(PrimitiveType::Float64)
    } else if tok == "string"@ {
        Some(PrimitiveType::Str)
    } else if tok == "bytes"@ {
        Some(PrimitiveType::Bytes)
    } else if tok == "publicKey"@ {
        Some(PrimitiveType::PublicKey)
    } else {
        None
    }
}

fn primitive_token(tok: &str) -> (r: Option<PrimitiveType>)
    ensures
        r == primitive_of(tok@),
{
    if str_eq(tok, "bool") {
        Some(PrimitiveType::Bool)
    } else if str_eq(tok, "u8") {
        Some(PrimitiveType::U8)
    } else if str_eq(tok, "i8") {
        Some(PrimitiveType::I8)
    } else if str_eq(tok, "u16") {
        Some(PrimitiveType::U16)
    } else if str_eq(tok, "i16") {
        Some(PrimitiveType::I16)
    } else if str_eq(tok, "u32") {
        Some(PrimitiveType::U32)
    } else if str_eq(tok, "i32") {
        Some(PrimitiveType::I32)
    } else if str_eq(tok, "u64") {
        Some(PrimitiveType::U64)
    } else if str_eq(tok, "i64") {
        Some(PrimitiveType::I64)
    } else if str_eq(tok, "u128") {
        Some(PrimitiveType::U128)
    } else if str_eq(tok, "i128") {
        Some(PrimitiveType::I128)
    } else if str_eq(tok, "f32") {
        Some(PrimitiveType::Float32)
    } else if str_eq(tok, "f64") {
        Some(PrimitiveType::Float64)
    } else if str_eq(tok, "string") {
        Some(PrimitiveType::Str)
    } else if str_eq(tok, "bytes") {
        Some(PrimitiveType::Bytes)
    } else if str_eq(tok, "publicKey") {
        Some(PrimitiveType::PublicKey)
    } else {
        None
    }
}

/// Maps a scalar type token onto the type model; any other token is refused.
pub fn primitive_from_token(tok: &str) -> (r: Result<PrimitiveType, IdlError>)
    ensures
        match primitive_of(tok@) {
            Some(p) => r == Ok::<PrimitiveType, IdlError>(p),
            None => r is Err && r->Err_0 is UnknownTypeToken && r->Err_0->UnknownTypeToken_0@ == tok@,
        },
{
    match primitive_token(tok) {
        Some(p) => Ok(p),
        None => Err(IdlError::UnknownTypeToken(tok.to_string())),
    }
}

} // verus!
