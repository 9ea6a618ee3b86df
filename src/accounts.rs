//! Source text of the accounts module: each account's layout, in the encoding
//! its zero-copy flag selects, with the discriminator that prefixes it.
use vstd::prelude::*;
use crate::discm::{discriminator, spec_discm};
use crate::typedefs::{decl_text, dec, join, name_listed, push_dec, push_decl, string_views};
use crate::types::NamedAccount;

verus! {

/// `b` written as an array literal.
pub open spec fn bytes_text(b: Seq<u8>) -> Seq<char> {
    "["@ + join(b.map_values(|x: u8| dec(x as nat))) + "]"@
}

/// The encode/decode pair of an account: both go through the discriminator,
/// then through the fixed layout or the length-prefixed encoding, never both.
pub open spec fn codec_text(zero_copy: bool) -> Seq<char> {
    if zero_copy {
        "    pub fn encode<W: std::io::Write>(&self, mut writer: W) -> std::io::Result<()> {\n        writer.write_all(&Self::DISCM)?;\n        writer.write_all(bytemuck::bytes_of(self))\n    }\n    pub fn decode(buf: &[u8]) -> std::io::Result<Self> {\n        if buf.len() < 8 || buf[..8] != Self::DISCM {\n            return Err(std::io::Error::new(std::io::ErrorKind::InvalidData, \"discriminator mismatch\"));\n        }\n        bytemuck::try_pod_read_unaligned(&buf[8..])\n            .map_err(|e| std::io::Error::new(std::io::ErrorKind::InvalidData, e.to_string()))\n    }\n"@
    } else {
        "    pub fn encode<W: std::io::Write>(&self, mut writer: W) -> std::io::Result<()> {\n        writer.write_all(&Self::DISCM)?;\n        borsh::BorshSerialize::serialize(self, &mut writer)\n    }\n    pub fn decode(buf: &[u8]) -> std::io::Result<Self> {\n        if buf.len() < 8 || buf[..8] != Self::DISCM {\n            return Err(std::io::Error::new(std::io::ErrorKind::InvalidData, \"discriminator mismatch\"));\n        }\n        let mut rest = &buf[8..];\n        <Self as borsh::BorshDeserialize>::deserialize(&mut rest)\n    }\n"@
    }
}

pub open spec fn account_text(a: NamedAccount, zero_copy: bool) -> Seq<char> {
    decl_text(a.name@, Seq::empty(), a.ty, zero_copy) + "impl "@ + a.name@
        + " {\n    pub const DISCM: [u8; 8] = "@ + bytes_text(spec_discm("account:"@, a.name@))
        + ";\n"@ + codec_text(zero_copy) + "}\n"@
}

/// The accounts module: the accounts of `accs` in order, each in the fixed
/// layout when its name is among `zero_copy`.
pub open spec fn accounts_text(accs: Seq<NamedAccount>, zero_copy: Seq<Seq<char>>) -> Seq<char>
    decreases accs.len(),
{
    if accs.len() == 0 {
        Seq::empty()
    } else {
        accounts_text(accs.drop_last(), zero_copy) + account_text(
            accs.last(),
            zero_copy.contains(accs.last().name@),
        )
    }
}

pub(crate) fn push_bytes(s: &mut String, b: &Vec<u8>)
    ensures
        final(s)@ == old(s)@ + bytes_text(b@),
{
    let ghost start = s@;
    let ghost items = b@.map_values(|x: u8| dec(x as nat));
    s.append("[");
    let mut i: usize = 0;
    while i < b.len()
        invariant
            i <= b.len(),
            items == b@.map_values(|x: u8| dec(x as nat)),
            s@ == start + "["@ + join(items.take(i as int)),
        decreases b.len() - i,
    {
        if i > 0 {
            s.append(", ");
        }
        push_dec(s, b[i] as u64);
        assert(items.take(i + 1).drop_last() =~= items.take(i as int));
        assert(s@ =~= start + "["@ + join(items.take(i + 1)));
        i += 1;
    }
    s.append("]");
    assert(items.take(i as int) =~= items);
    assert(s@ =~= start + bytes_text(b@));
}

/// The source emitted for one account.
pub fn account_source(a: &NamedAccount, zero_copy: bool) -> (r: String)
    ensures
        r@ == account_text(*a, zero_copy),
{
    let mut s = String::new();
    let none: Vec<String> = Vec::new();
    push_decl(&mut s, &a.name, &none, &a.ty, zero_copy);
    assert(string_views(none@) =~= Seq::<Seq<char>>::empty());
    s.append("impl ");
    s.append(a.name.as_str());
    s.append(" {\n    pub const DISCM: [u8; 8] = ");
    let tag = discriminator("account:", a.name.as_str());
    push_bytes(&mut s, &tag);
    s.append(";\n");
    if zero_copy {
        s.append("    pub fn encode<W: std::io::Write>(&self, mut writer: W) -> std::io::Result<()> {\n        writer.write_all(&Self::DISCM)?;\n        writer.write_all(bytemuck::bytes_of(self))\n    }\n    pub fn decode(buf: &[u8]) -> std::io::Result<Self> {\n        if buf.len() < 8 || buf[..8] != Self::DISCM {\n            return Err(std::io::Error::new(std::io::ErrorKind::InvalidData, \"discriminator mismatch\"));\n        }\n        bytemuck::try_pod_read_unaligned(&buf[8..])\n            .map_err(|e| std::io::Error::new(std::io::ErrorKind::InvalidData, e.to_string()))\n    }\n");
    } else {
        s.append("    pub fn encode<W: std::io::Write>(&self, mut writer: W) -> std::io::Result<()> {\n        writer.write_all(&Self::DISCM)?;\n        borsh::BorshSerialize::serialize(self, &mut writer)\n    }\n    pub fn decode(buf: &[u8]) -> std::io::Result<Self> {\n        if buf.len() < 8 || buf[..8] != Self::DISCM {\n            return Err(std::io::Error::new(std::io::ErrorKind::InvalidData, \"discriminator mismatch\"));\n        }\n        let mut rest = &buf[8..];\n        <Self as borsh::BorshDeserialize>::deserialize(&mut rest)\n    }\n");
    }
    s.append("}\n");
    assert(s@ =~= account_text(*a, zero_copy));
    s
}

/// Source text of the accounts module; names in `zero_copy` that match no
/// account are ignored.
pub fn accounts_source(accs: &Vec<NamedAccount>, zero_copy: &Vec<String>) -> (r: String)
    ensures
        r@ == accounts_text(accs@, string_views(zero_copy@)),
{
    let mut s = String::new();
    let mut i: usize = 0;
    while i < accs.len()
        invariant
            i <= accs.len(),
            s@ == accounts_text(accs@.take(i as int), string_views(zero_copy@)),
        decreases accs.len() - i,
    {
        let zc = name_listed(zero_copy, &accs[i].name);
        let text = account_source(&accs[i], zc);
        s.append(text.as_str());
        assert(accs@.take(i + 1).drop_last() =~= accs@.take(i as int));
        i += 1;
    }
    assert(accs@.take(i as int) =~= accs@);
    s
}

} // verus!
