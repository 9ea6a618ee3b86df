//! The linear account list of an instruction: nested account groups are
//! flattened in declaration order, each leaf keeping its flags.
use vstd::prelude::*;
use crate::accounts::{bytes_text, push_bytes};
use crate::discm::{discriminator, spec_discm};
use crate::typedefs::{field_lines, push_field_lines};
use crate::types::{IxAccount, IxAccountEntry, NamedInstruction};

verus! {

/// An account parameter as the wire format sees it: name, writable, signer.
pub open spec fn leaf(a: IxAccount) -> (Seq<char>, bool, bool) {
    (a.name@, a.is_mut, a.is_signer)
}

pub open spec fn flat_entry(e: IxAccountEntry) -> Seq<(Seq<char>, bool, bool)>
    decreases e,
{
    match e {
        IxAccountEntry::Single(a) => seq![leaf(a)],
        IxAccountEntry::Group(g) => flat_list(g.accounts@),
    }
}

/// The leaves of `es`, in declaration order.
pub open spec fn flat_list(es: Seq<IxAccountEntry>) -> Seq<(Seq<char>, bool, bool)>
    decreases es,
{
    if es.len() == 0 {
        seq![]
    } else {
        flat_list(es.drop_last()) + flat_entry(es.last())
    }
}

pub open spec fn leaves(v: Seq<IxAccount>) -> Seq<(Seq<char>, bool, bool)> {
    v.map_values(|a: IxAccount| leaf(a))
}

fn copy_account(a: &IxAccount) -> (r: IxAccount)
    ensures
        leaf(r) == leaf(*a),
{
    IxAccount { name: a.name.clone(), is_mut: a.is_mut, is_signer: a.is_signer }
}

fn push_entry(e: &IxAccountEntry, out: &mut Vec<IxAccount>)
    ensures
        leaves(final(out)@) == leaves(old(out)@) + flat_entry(*e),
    decreases e,
{
    match e {
        IxAccountEntry::Single(a) => {
            let ghost before = out@;
            out.push(copy_account(a));
            assert(leaves(out@) =~= leaves(before) + flat_entry(*e));
        },
        IxAccountEntry::Group(g) => {
            push_list(&g.accounts, out);
        },
    }
}

fn push_list(es: &Vec<IxAccountEntry>, out: &mut Vec<IxAccount>)
    ensures
        leaves(final(out)@) == leaves(old(out)@) + flat_list(es@),
    decreases es,
{
    let ghost start = out@;
    let mut i: usize = 0;
    while i < es.len()
        invariant
            i <= es.len(),
            leaves(out@) == leaves(start) + flat_list(es@.take(i as int)),
        decreases es.len() - i,
    {
        let ghost before = out@;
        push_entry(&es[i], out);
        assert(es@.take(i + 1).drop_last() =~= es@.take(i as int));
        assert(leaves(out@) =~= leaves(start) + flat_list(es@.take(i + 1)));
        i += 1;
    }
    assert(es@.take(i as int) =~= es@);
}

/// The instruction's account list with every nested group flattened into
/// its leaves, in declaration order.
pub fn flatten_accounts(es: &Vec<IxAccountEntry>) -> (r: Vec<IxAccount>)
    ensures
        leaves(r@) == flat_list(es@),
{
    let mut out: Vec<IxAccount> = Vec::new();
    push_list(es, &mut out);
    assert(leaves(Seq::<IxAccount>::empty()) =~= seq![]);
    assert(leaves(out@) =~= flat_list(es@));
    out
}

pub open spec fn bool_text(b: bool) -> Seq<char> {
    if b { "true"@ } else { "false"@ }
}

/// One entry of the builder's account list: key, writable, signer.
pub open spec fn meta_line(m: (Seq<char>, bool, bool)) -> Seq<char> {
    "            ("@ + m.0 + ", "@ + bool_text(m.1) + ", "@ + bool_text(m.2) + "),\n"@
}

/// The builder's account parameters, one per leaf, each after a `", "`.
pub open spec fn params_text(ms: Seq<(Seq<char>, bool, bool)>) -> Seq<char>
    decreases ms.len(),
{
    if ms.len() == 0 {
        Seq::empty()
    } else {
        params_text(ms.drop_last()) + ", "@ + ms.last().0 + ": Pubkey"@
    }
}

pub open spec fn meta_lines(ms: Seq<(Seq<char>, bool, bool)>) -> Seq<char>
    decreases ms.len(),
{
    if ms.len() == 0 {
        Seq::empty()
    } else {
        meta_lines(ms.drop_last()) + meta_line(ms.last())
    }
}

/// The source emitted for one instruction: its argument container, its
/// discriminator, the encoding of its data (the discriminator, then the
/// arguments), and its builder, which takes one key per account leaf in
/// declaration order and pairs each with the leaf's flags.
pub open spec fn instruction_text(ix: NamedInstruction) -> Seq<char> {
    "#[derive(Clone, Debug, BorshDeserialize, BorshSerialize, PartialEq)]\npub struct "@ + ix.name@
        + "IxArgs {\n"@ + field_lines("    pub "@, ix.args@) + "}\nimpl "@ + ix.name@
        + "IxArgs {\n    pub const DISCM: [u8; 8] = "@ + bytes_text(spec_discm("global:"@, ix.name@))
        + ";\n    pub fn data(&self) -> std::io::Result<Vec<u8>> {\n        let mut data = Self::DISCM.to_vec();\n        borsh::BorshSerialize::serialize(self, &mut data)?;\n        Ok(data)\n    }\n    pub fn ix(&self"@
        + params_text(flat_list(ix.accounts@))
        + ") -> std::io::Result<(Vec<(Pubkey, bool, bool)>, Vec<u8>)> {\n        let accounts = vec![\n"@
        + meta_lines(flat_list(ix.accounts@)) + "        ];\n        Ok((accounts, self.data()?))\n    }\n}\n"@
}

pub open spec fn instructions_text(ixs: Seq<NamedInstruction>) -> Seq<char>
    decreases ixs.len(),
{
    if ixs.len() == 0 {
        Seq::empty()
    } else {
        instructions_text(ixs.drop_last()) + instruction_text(ixs.last())
    }
}

fn push_bool(s: &mut String, b: bool)
    ensures
        final(s)@ == old(s)@ + bool_text(b),
{
    if b {
        s.append("true");
    } else {
        s.append("false");
    }
}

fn push_meta_lines(s: &mut String, accs: &Vec<IxAccount>)
    ensures
        final(s)@ == old(s)@ + meta_lines(leaves(accs@)),
{
    let ghost start = s@;
    let ghost ms = leaves(accs@);
    let mut i: usize = 0;
    while i < accs.len()
        invariant
            i <= accs.len(),
            ms == leaves(accs@),
            s@ == start + meta_lines(ms.take(i as int)),
        decreases accs.len() - i,
    {
        s.append("            (");
        s.append(accs[i].name.as_str());
        s.append(", ");
        push_bool(s, accs[i].is_mut);
        s.append(", ");
        push_bool(s, accs[i].is_signer);
        s.append("),\n");
        assert(ms.take(i + 1).drop_last() =~= ms.take(i as int));
        assert(s@ =~= start + meta_lines(ms.take(i + 1)));
        i += 1;
    }
    assert(ms.take(i as int) =~= ms);
}

fn push_params(s: &mut String, accs: &Vec<IxAccount>)
    ensures
        final(s)@ == old(s)@ + params_text(leaves(accs@)),
{
    let ghost start = s@;
    let ghost ms = leaves(accs@);
    let mut i: usize = 0;
    while i < accs.len()
        invariant
            i <= accs.len(),
            ms == leaves(accs@),
            s@ == start + params_text(ms.take(i as int)),
        decreases accs.len() - i,
    {
        s.append(", ");
        s.append(accs[i].name.as_str());
        s.append(": Pubkey");
        assert(ms.take(i + 1).drop_last() =~= ms.take(i as int));
        assert(s@ =~= start + params_text(ms.take(i + 1)));
        i += 1;
    }
    assert(ms.take(i as int) =~= ms);
}

/// The source emitted for one instruction.
pub fn instruction_source(ix: &NamedInstruction) -> (r: String)
    ensures
        r@ == instruction_text(*ix),
{
    let mut s = String::new();
    s.append("#[derive(Clone, Debug, BorshDeserialize, BorshSerialize, PartialEq)]\npub struct ");
    s.append(ix.name.as_str());
    s.append("IxArgs {\n");
    push_field_lines(&mut s, "    pub ", &ix.args);
    s.append("}\nimpl ");
    s.append(ix.name.as_str());
    s.append("IxArgs {\n    pub const DISCM: [u8; 8] = ");
    let tag = discriminator("global:", ix.name.as_str());
    push_bytes(&mut s, &tag);
    s.append(";\n    pub fn data(&self) -> std::io::Result<Vec<u8>> {\n        let mut data = Self::DISCM.to_vec();\n        borsh::BorshSerialize::serialize(self, &mut data)?;\n        Ok(data)\n    }\n    pub fn ix(&self");
    let flat = flatten_accounts(&ix.accounts);
    push_params(&mut s, &flat);
    s.append(") -> std::io::Result<(Vec<(Pubkey, bool, bool)>, Vec<u8>)> {\n        let accounts = vec![\n");
    push_meta_lines(&mut s, &flat);
    s.append("        ];\n        Ok((accounts, self.data()?))\n    }\n}\n");
    assert(s@ =~= instruction_text(*ix));
    s
}

/// Source text of the instructions module.
pub fn instructions_source(ixs: &Vec<NamedInstruction>) -> (r: String)
    ensures
        r@ == instructions_text(ixs@),
{
    let mut s = String::new();
    let mut i: usize = 0;
    while i < ixs.len()
        invariant
            i <= ixs.len(),
            s@ == instructions_text(ixs@.take(i as int)),
        decreases ixs.len() - i,
    {
        let text = instruction_source(&ixs[i]);
        s.append(text.as_str());
        assert(ixs@.take(i + 1).drop_last() =~= ixs@.take(i as int));
        i += 1;
    }
    assert(ixs@.take(i as int) =~= ixs@);
    s
}

} // verus!
