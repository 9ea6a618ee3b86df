//! Source text of the typedefs module: one declaration per named type, with
//! its generic parameters kept.
use vstd::prelude::*;
use crate::types::{EnumVariant, Field, NamedType, PrimitiveType, TypeDef, TypeRef};

verus! {

pub open spec fn digit_text(d: nat) -> Seq<char> {
    if d == 0 { "0"@ }
    else if d == 1 { "1"@ }
    else if d == 2 { "2"@ }
    else if d == 3 { "3"@ }
    else if d == 4 { "4"@ }
    else if d == 5 { "5"@ }
    else if d == 6 { "6"@ }
    else if d == 7 { "7"@ }
    else if d == 8 { "8"@ }
    else { "9"@ }
}

/// Decimal digits of `n`.
pub open spec fn dec(n: nat) -> Seq<char>
    decreases n,
{
    if n < 10 {
        digit_text(n)
    } else {
        dec(n / 10) + digit_text(n % 10)
    }
}

pub open spec fn primitive_text(p: PrimitiveType) -> Seq<char> {
    match p {
        PrimitiveType::Bool => "bool"@,
        PrimitiveType::U8 => "u8"@,
        PrimitiveType::I8 => "i8"@,
        PrimitiveType::U16 => "u16"@,
        PrimitiveType::I16 => "i16"@,
        PrimitiveType::U32 => "u32"@,
        PrimitiveType::I32 => "i32"@,
        PrimitiveType::U64 => "u64"@,
        PrimitiveType::I64 => "i64"@,
        PrimitiveType::U128 => "u128"@,
        PrimitiveType::I128 => "i128"@,
        PrimitiveType::Float32 => "f32"@,
        PrimitiveType::Float64 => "f64"@,
        PrimitiveType::Str => "String"@,
        PrimitiveType::Bytes => "Vec<u8>"@,
        PrimitiveType::PublicKey => "Pubkey"@,
    }
}

/// How a type reference is written in the generated source.
pub open spec fn ty_text(t: TypeRef) -> Seq<char>
    decreases t,
{
    match t {
        TypeRef::Primitive(p) => primitive_text(p),
        TypeRef::Array(e, n) => "["@ + ty_text(*e) + "; "@ + dec(n as nat) + "]"@,
        TypeRef::List(e) => "Vec<"@ + ty_text(*e) + ">"@,
        TypeRef::Optional(e) => "Option<"@ + ty_text(*e) + ">"@,
        TypeRef::Defined(n, args) => if args.len() == 0 {
            n@
        } else {
            n@ + "<"@ + ty_list_text(args@) + ">"@
        },
        TypeRef::Generic(g) => g@,
    }
}

/// The references of `ts`, written out and separated by `", "`.
pub open spec fn ty_list_text(ts: Seq<TypeRef>) -> Seq<char>
    decreases ts,
{
    if ts.len() == 0 {
        Seq::empty()
    } else if ts.len() == 1 {
        ty_text(ts[0])
    } else {
        ty_list_text(ts.drop_last()) + ", "@ + ty_text(ts.last())
    }
}

/// `items` separated by `", "`.
pub open spec fn join(items: Seq<Seq<char>>) -> Seq<char>
    decreases items.len(),
{
    if items.len() == 0 {
        Seq::empty()
    } else if items.len() == 1 {
        items[0]
    } else {
        join(items.drop_last()) + ", "@ + items.last()
    }
}

pub open spec fn string_views(v: Seq<String>) -> Seq<Seq<char>> {
    v.map_values(|s: String| s@)
}

pub open spec fn field_types(fs: Seq<Field>) -> Seq<Seq<char>> {
    fs.map_values(|f: Field| ty_text(f.ty))
}

/// The generic parameter list of a declaration, empty when it has none.
pub open spec fn generics_text(gs: Seq<Seq<char>>) -> Seq<char> {
    if gs.len() == 0 {
        Seq::empty()
    } else {
        "<"@ + join(gs) + ">"@
    }
}

pub open spec fn field_line(indent: Seq<char>, f: Field) -> Seq<char> {
    indent + f.name@ + ": "@ + ty_text(f.ty) + ",\n"@
}

pub open spec fn field_lines(indent: Seq<char>, fs: Seq<Field>) -> Seq<char>
    decreases fs.len(),
{
    if fs.len() == 0 {
        Seq::empty()
    } else {
        field_lines(indent, fs.drop_last()) + field_line(indent, fs.last())
    }
}

/// No field of `fs` is named: the variant is tuple-like.
pub open spec fn all_unnamed(fs: Seq<Field>) -> bool {
    forall|j: int| 0 <= j < fs.len() ==> #[trigger] fs[j].name@.len() == 0
}

pub open spec fn variant_text(v: EnumVariant) -> Seq<char> {
    if v.fields.len() == 0 {
        "    "@ + v.name@ + ",\n"@
    } else if all_unnamed(v.fields@) {
        "    "@ + v.name@ + "("@ + join(field_types(v.fields@)) + "),\n"@
    } else {
        "    "@ + v.name@ + " {\n"@ + field_lines("        "@, v.fields@) + "    },\n"@
    }
}

pub open spec fn variants_text(vs: Seq<EnumVariant>) -> Seq<char>
    decreases vs.len(),
{
    if vs.len() == 0 {
        Seq::empty()
    } else {
        variants_text(vs.drop_last()) + variant_text(vs.last())
    }
}

pub open spec fn derive_text(zero_copy: bool) -> Seq<char> {
    if zero_copy {
        "#[repr(C)]\n#[derive(Clone, Copy, Debug, PartialEq, Pod, Zeroable)]\n"@
    } else {
        "#[derive(Clone, Debug, BorshDeserialize, BorshSerialize, PartialEq)]\n"@
    }
}

/// A declaration named `name` with generic parameters `gens` and layout `ty`;
/// `zero_copy` selects the fixed layout over the length-prefixed one.
pub open spec fn decl_text(name: Seq<char>, gens: Seq<Seq<char>>, ty: TypeDef, zero_copy: bool) -> Seq<char> {
    match ty {
        TypeDef::Struct(fs) => derive_text(zero_copy) + "pub struct "@ + name + generics_text(gens)
            + " {\n"@ + field_lines("    pub "@, fs@) + "}\n"@,
        TypeDef::Enum(vs) => derive_text(zero_copy) + "pub enum "@ + name + generics_text(gens)
            + " {\n"@ + variants_text(vs@) + "}\n"@,
    }
}

/// The declaration emitted for `d`; `zero_copy` selects the fixed layout.
pub open spec fn typedef_text(d: NamedType, zero_copy: bool) -> Seq<char> {
    decl_text(d.name@, string_views(d.generics@), d.ty, zero_copy)
}

fn push_digit(s: &mut String, d: u64)
    requires
        d < 10,
    ensures
        final(s)@ == old(s)@ + digit_text(d as nat),
{
    if d == 0 { s.append("0") }
    else if d == 1 { s.append("1") }
    else if d == 2 { s.append("2") }
    else if d == 3 { s.append("3") }
    else if d == 4 { s.append("4") }
    else if d == 5 { s.append("5") }
    else if d == 6 { s.append("6") }
    else if d == 7 { s.append("7") }
    else if d == 8 { s.append("8") }
    else { s.append("9") }
}

pub(crate) fn push_dec(s: &mut String, n: u64)
    ensures
        final(s)@ == old(s)@ + dec(n as nat),
    decreases n,
{
    let ghost start = s@;
    if n >= 10 {
        push_dec(s, n / 10);
    }
    push_digit(s, n % 10);
    assert(s@ =~= start + dec(n as nat));
}

fn push_type(s: &mut String, t: &TypeRef)
    ensures
        final(s)@ == old(s)@ + ty_text(*t),
    decreases t,
{
    let ghost start = s@;
    match t {
        TypeRef::Primitive(p) => {
            let text = match p {
                PrimitiveType::Bool => "bool",
                PrimitiveType::U8 => "u8",
                PrimitiveType::I8 => "i8",
                PrimitiveType::U16 => "u16",
                PrimitiveType::I16 => "i16",
                PrimitiveType::U32 => "u32",
                PrimitiveType::I32 => "i32",
                PrimitiveType::U64 => "u64",
                PrimitiveType::I64 => "i64",
                PrimitiveType::U128 => "u128",
                PrimitiveType::I128 => "i128",
                PrimitiveType::Float32 => "f32",
                PrimitiveType::Float64 => "f64",
                PrimitiveType::Str => "String",
                PrimitiveType::Bytes => "Vec<u8>",
                PrimitiveType::PublicKey => "Pubkey",
            };
            s.append(text);
        },
        TypeRef::Array(e, n) => {
            s.append("[");
            push_type(s, e);
            s.append("; ");
            push_dec(s, *n);
            s.append("]");
        },
        TypeRef::List(e) => {
            s.append("Vec<");
            push_type(s, e);
            s.append(">");
        },
        TypeRef::Optional(e) => {
            s.append("Option<");
            push_type(s, e);
            s.append(">");
        },
        TypeRef::Defined(n, args) => {
            s.append(n.as_str());
            if args.len() > 0 {
                s.append("<");
                push_type_list(s, args);
                s.append(">");
            }
        },
        TypeRef::Generic(g) => s.append(g.as_str()),
    }
    assert(s@ =~= start + ty_text(*t));
}

fn push_type_list(s: &mut String, ts: &Vec<TypeRef>)
    ensures
        final(s)@ == old(s)@ + ty_list_text(ts@),
    decreases ts,
{
    let ghost start = s@;
    let mut i: usize = 0;
    while i < ts.len()
        invariant
            i <= ts.len(),
            s@ == start + ty_list_text(ts@.take(i as int)),
        decreases ts.len() - i,
    {
        if i > 0 {
            s.append(", ");
        }
        push_type(s, &ts[i]);
        assert(ts@.take(i + 1).drop_last() =~= ts@.take(i as int));
        assert(s@ =~= start + ty_list_text(ts@.take(i + 1)));
        i += 1;
    }
    assert(ts@.take(i as int) =~= ts@);
}

/// How a type reference is written in the generated source.
pub fn type_source(t: &TypeRef) -> (r: String)
    ensures
        r@ == ty_text(*t),
{
    let mut s = String::new();
    push_type(&mut s, t);
    assert(s@ =~= ty_text(*t));
    s
}

fn push_generics(s: &mut String, gs: &Vec<String>)
    ensures
        final(s)@ == old(s)@ + generics_text(string_views(gs@)),
{
    let ghost start = s@;
    let ghost items = string_views(gs@);
    if gs.len() == 0 {
        assert(s@ =~= start + generics_text(items));
        return;
    }
    s.append("<");
    let mut i: usize = 0;
    while i < gs.len()
        invariant
            i <= gs.len(),
            gs.len() > 0,
            items == string_views(gs@),
            s@ == start + "<"@ + join(items.take(i as int)),
        decreases gs.len() - i,
    {
        let ghost before = s@;
        if i > 0 {
            s.append(", ");
        }
        s.append(gs[i].as_str());
        assert(items.take(i + 1).drop_last() =~= items.take(i as int));
        assert(s@ =~= start + "<"@ + join(items.take(i + 1)));
        i += 1;
    }
    s.append(">");
    assert(items.take(i as int) =~= items);
    assert(s@ =~= start + generics_text(items));
}

fn push_tuple_types(s: &mut String, fs: &Vec<Field>)
    ensures
        final(s)@ == old(s)@ + join(field_types(fs@)),
{
    let ghost start = s@;
    let ghost items = field_types(fs@);
    let mut i: usize = 0;
    while i < fs.len()
        invariant
            i <= fs.len(),
            items == field_types(fs@),
            s@ == start + join(items.take(i as int)),
        decreases fs.len() - i,
    {
        if i > 0 {
            s.append(", ");
        }
        push_type(s, &fs[i].ty);
        assert(items.take(i + 1).drop_last() =~= items.take(i as int));
        assert(s@ =~= start + join(items.take(i + 1)));
        i += 1;
    }
    assert(items.take(i as int) =~= items);
}

pub(crate) fn push_field_lines(s: &mut String, indent: &str, fs: &Vec<Field>)
    ensures
        final(s)@ == old(s)@ + field_lines(indent@, fs@),
{
    let ghost start = s@;
    let mut i: usize = 0;
    while i < fs.len()
        invariant
            i <= fs.len(),
            s@ == start + field_lines(indent@, fs@.take(i as int)),
        decreases fs.len() - i,
    {
        s.append(indent);
        s.append(fs[i].name.as_str());
        s.append(": ");
        push_type(s, &fs[i].ty);
        s.append(",\n");
        assert(fs@.take(i + 1).drop_last() =~= fs@.take(i as int));
        assert(s@ =~= start + field_lines(indent@, fs@.take(i + 1)));
        i += 1;
    }
    assert(fs@.take(i as int) =~= fs@);
}

fn fields_unnamed(fs: &Vec<Field>) -> (r: bool)
    ensures
        r == all_unnamed(fs@),
{
    let mut i: usize = 0;
    while i < fs.len()
        invariant
            i <= fs.len(),
            forall|j: int| 0 <= j < i ==> #[trigger] fs@[j].name@.len() == 0,
        decreases fs.len() - i,
    {
        if !fs[i].name.as_str().is_empty() {
            return false;
        }
        i += 1;
    }
    true
}

fn push_variant(s: &mut String, v: &EnumVariant)
    ensures
        final(s)@ == old(s)@ + variant_text(*v),
{
    let ghost start = s@;
    s.append("    ");
    s.append(v.name.as_str());
    if v.fields.len() == 0 {
        s.append(",\n");
    } else if fields_unnamed(&v.fields) {
        s.append("(");
        push_tuple_types(s, &v.fields);
        s.append("),\n");
    } else {
        s.append(" {\n");
        push_field_lines(s, "        ", &v.fields);
        s.append("    },\n");
    }
    assert(s@ =~= start + variant_text(*v));
}

fn push_variants(s: &mut String, vs: &Vec<EnumVariant>)
    ensures
        final(s)@ == old(s)@ + variants_text(vs@),
{
    let ghost start = s@;
    let mut i: usize = 0;
    while i < vs.len()
        invariant
            i <= vs.len(),
            s@ == start + variants_text(vs@.take(i as int)),
        decreases vs.len() - i,
    {
        push_variant(s, &vs[i]);
        assert(vs@.take(i + 1).drop_last() =~= vs@.take(i as int));
        assert(s@ =~= start + variants_text(vs@.take(i + 1)));
        i += 1;
    }
    assert(vs@.take(i as int) =~= vs@);
}

pub(crate) fn push_decl(
    s: &mut String,
    name: &String,
    generics: &Vec<String>,
    ty: &TypeDef,
    zero_copy: bool,
)
    ensures
        final(s)@ == old(s)@ + decl_text(name@, string_views(generics@), *ty, zero_copy),
{
    let ghost start = s@;
    if zero_copy {
        s.append("#[repr(C)]\n#[derive(Clone, Copy, Debug, PartialEq, Pod, Zeroable)]\n");
    } else {
        s.append("#[derive(Clone, Debug, BorshDeserialize, BorshSerialize, PartialEq)]\n");
    }
    match ty {
        TypeDef::Struct(fs) => {
            s.append("pub struct ");
            s.append(name.as_str());
            push_generics(s, generics);
            s.append(" {\n");
            push_field_lines(s, "    pub ", fs);
            s.append("}\n");
        },
        TypeDef::Enum(vs) => {
            s.append("pub enum ");
            s.append(name.as_str());
            push_generics(s, generics);
            s.append(" {\n");
            push_variants(s, vs);
            s.append("}\n");
        },
    }
    assert(s@ =~= start + decl_text(name@, string_views(generics@), *ty, zero_copy));
}

/// The declaration emitted for `d`; `zero_copy` selects the fixed layout.
pub fn typedef_source(d: &NamedType, zero_copy: bool) -> (r: String)
    ensures
        r@ == typedef_text(*d, zero_copy),
{
    let mut s = String::new();
    push_decl(&mut s, &d.name, &d.generics, &d.ty, zero_copy);
    assert(s@ =~= typedef_text(*d, zero_copy));
    s
}

/// The typedefs module: the declarations of `ts` in order, each in the fixed
/// layout when its name is among `zero_copy`.
pub open spec fn typedefs_text(ts: Seq<NamedType>, zero_copy: Seq<Seq<char>>) -> Seq<char>
    decreases ts.len(),
{
    if ts.len() == 0 {
        Seq::empty()
    } else {
        typedefs_text(ts.drop_last(), zero_copy) + typedef_text(
            ts.last(),
            zero_copy.contains(ts.last().name@),
        )
    }
}

pub(crate) fn name_listed(names: &Vec<String>, n: &String) -> (r: bool)
    ensures
        r == string_views(names@).contains(n@),
{
    let mut i: usize = 0;
    while i < names.len()
        invariant
            i <= names.len(),
            forall|k: int| 0 <= k < i ==> names@[k]@ != n@,
        decreases names.len() - i,
    {
        if names[i] == *n {
            assert(string_views(names@)[i as int] == n@);
            return true;
        }
        i += 1;
    }
    assert forall|k: int| 0 <= k < names.len() implies string_views(names@)[k] != n@ by {
        assert(string_views(names@)[k] == names@[k]@);
    }
    false
}

/// Source text of the typedefs module for the named types `ts`; the names in
/// `zero_copy` get the fixed layout, names that match no type are ignored.
pub fn typedefs_source(ts: &Vec<NamedType>, zero_copy: &Vec<String>) -> (r: String)
    ensures
        r@ == typedefs_text(ts@, string_views(zero_copy@)),
{
    let mut s = String::new();
    let mut i: usize = 0;
    while i < ts.len()
        invariant
            i <= ts.len(),
            s@ == typedefs_text(ts@.take(i as int), string_views(zero_copy@)),
        decreases ts.len() - i,
    {
        let zc = name_listed(zero_copy, &ts[i].name);
        let text = typedef_source(&ts[i], zc);
        s.append(text.as_str());
        assert(ts@.take(i + 1).drop_last() =~= ts@.take(i as int));
        i += 1;
    }
    assert(ts@.take(i as int) =~= ts@);
    s
}

proof fn lemma_field_lines_split(indent: Seq<char>, a: Seq<Field>, b: Seq<Field>)
    ensures
        field_lines(indent, a + b) == field_lines(indent, a) + field_lines(indent, b),
    decreases b.len(),
{
    if b.len() == 0 {
        assert(a + b =~= a);
        assert(field_lines(indent, a) + field_lines(indent, b) =~= field_lines(indent, a));
    } else {
        assert((a + b).drop_last() =~= a + b.drop_last());
        lemma_field_lines_split(indent, a, b.drop_last());
        assert(field_lines(indent, a + b) =~= field_lines(indent, a) + field_lines(indent, b));
    }
}

/// `t` uses the generic parameter named `g` somewhere inside it.
pub open spec fn uses_generic(t: TypeRef, g: Seq<char>) -> bool
    decreases t,
{
    match t {
        TypeRef::Primitive(_) => false,
        TypeRef::Array(e, _) => uses_generic(*e, g),
        TypeRef::List(e) => uses_generic(*e, g),
        TypeRef::Optional(e) => uses_generic(*e, g),
        TypeRef::Defined(_, args) => uses_generic_any(args@, g),
        TypeRef::Generic(h) => h@ == g,
    }
}

pub open spec fn uses_generic_any(ts: Seq<TypeRef>, g: Seq<char>) -> bool
    decreases ts,
{
    if ts.len() == 0 {
        false
    } else {
        uses_generic_any(ts.drop_last(), g) || uses_generic(ts.last(), g)
    }
}

/// A type that uses a generic parameter is written with the parameter's name
/// at the place of that use, inside the text of the wrappers around it.
pub proof fn lemma_generic_written(t: TypeRef, g: Seq<char>)
    requires
        uses_generic(t, g),
    ensures
        exists|pre: Seq<char>, post: Seq<char>| ty_text(t) == pre + g + post,
    decreases t,
{
    match t {
        TypeRef::Generic(h) => {
            assert(ty_text(t) =~= Seq::<char>::empty() + g + Seq::<char>::empty());
        },
        TypeRef::Array(e, n) => {
            lemma_generic_written(*e, g);
            let (pre, post) = choose|pre: Seq<char>, post: Seq<char>| ty_text(*e) == pre + g + post;
            assert(ty_text(t) =~= ("["@ + pre) + g + (post + "; "@ + dec(n as nat) + "]"@));
        },
        TypeRef::List(e) => {
            lemma_generic_written(*e, g);
            let (pre, post) = choose|pre: Seq<char>, post: Seq<char>| ty_text(*e) == pre + g + post;
            assert(ty_text(t) =~= ("Vec<"@ + pre) + g + (post + ">"@));
        },
        TypeRef::Optional(e) => {
            lemma_generic_written(*e, g);
            let (pre, post) = choose|pre: Seq<char>, post: Seq<char>| ty_text(*e) == pre + g + post;
            assert(ty_text(t) =~= ("Option<"@ + pre) + g + (post + ">"@));
        },
        TypeRef::Defined(n, args) => {
            lemma_generic_written_list(args@, g);
            let (pre, post) = choose|pre: Seq<char>, post: Seq<char>|
                ty_list_text(args@) == pre + g + post;
            assert(args.len() > 0);
            assert(ty_text(t) =~= (n@ + "<"@ + pre) + g + (post + ">"@));
        },
        TypeRef::Primitive(_) => {},
    }
}

proof fn lemma_generic_written_list(ts: Seq<TypeRef>, g: Seq<char>)
    requires
        uses_generic_any(ts, g),
    ensures
        ts.len() > 0,
        exists|pre: Seq<char>, post: Seq<char>| ty_list_text(ts) == pre + g + post,
    decreases ts,
{
    let last = ts.last();
    if uses_generic(last, g) {
        lemma_generic_written(last, g);
        let (pre, post) = choose|pre: Seq<char>, post: Seq<char>| ty_text(last) == pre + g + post;
        if ts.len() == 1 {
            assert(ts[0] == last);
            assert(ty_list_text(ts) == pre + g + post);
        } else {
            assert(ty_list_text(ts) =~= (ty_list_text(ts.drop_last()) + ", "@ + pre) + g + post);
        }
    } else {
        lemma_generic_written_list(ts.drop_last(), g);
        let (pre, post) = choose|pre: Seq<char>, post: Seq<char>|
            ty_list_text(ts.drop_last()) == pre + g + post;
        assert(ts.len() > 1);
        assert(ty_list_text(ts) =~= pre + g + (post + ", "@ + ty_text(last)));
    }
}

/// A struct field whose type uses a generic parameter that the struct
/// declares: the emitted declaration lists the struct's own parameters, in
/// order, and writes that field with the text of its type, in which the
/// parameter's name stands where the parameter is used.
pub proof fn lemma_generic_parameter_kept(d: NamedType, zero_copy: bool, j: int, g: Seq<char>)
    requires
        d.ty is Struct,
        0 <= j < d.ty->Struct_0.len(),
        uses_generic(d.ty->Struct_0@[j].ty, g),
        string_views(d.generics@).contains(g),
    ensures
        typedef_text(d, zero_copy) == derive_text(zero_copy) + "pub struct "@ + d.name@ + "<"@
            + join(string_views(d.generics@)) + ">"@ + " {\n"@ + field_lines(
            "    pub "@,
            d.ty->Struct_0@.take(j),
        ) + ("    pub "@ + d.ty->Struct_0@[j].name@ + ": "@ + ty_text(d.ty->Struct_0@[j].ty) + ",\n"@)
            + field_lines("    pub "@, d.ty->Struct_0@.skip(j + 1)) + "}\n"@,
        exists|pre: Seq<char>, post: Seq<char>| ty_text(d.ty->Struct_0@[j].ty) == pre + g + post,
{
    let fs = d.ty->Struct_0@;
    let indent = "    pub "@;
    lemma_generic_written(fs[j].ty, g);
    assert(fs =~= (fs.take(j) + seq![fs[j]]) + fs.skip(j + 1));
    lemma_field_lines_split(indent, fs.take(j) + seq![fs[j]], fs.skip(j + 1));
    lemma_field_lines_split(indent, fs.take(j), seq![fs[j]]);
    assert(seq![fs[j]].drop_last() =~= Seq::<Field>::empty());
    assert(field_lines(indent, Seq::<Field>::empty()) == Seq::<char>::empty());
    assert(seq![fs[j]].last() == fs[j]);
    assert(field_lines(indent, seq![fs[j]]) =~= field_line(indent, fs[j]));
    assert(string_views(d.generics@).len() > 0);
    assert(typedef_text(d, zero_copy) =~= derive_text(zero_copy) + "pub struct "@ + d.name@ + "<"@
        + join(string_views(d.generics@)) + ">"@ + " {\n"@ + field_lines(indent, fs.take(j)) + (
    indent + fs[j].name@ + ": "@ + ty_text(fs[j].ty) + ",\n"@) + field_lines(indent, fs.skip(j + 1))
        + "}\n"@);
}

} // verus!
