//! Numeric codes of a program's error variants.
use vstd::prelude::*;
use vstd::std_specs::iter::IteratorSpec;
use crate::typedefs::{dec, push_dec};
use crate::types::ErrorEnumVariant;

verus! {

/// Some variant of `vs` claims code `c` explicitly.
pub open spec fn claimed(vs: Seq<ErrorEnumVariant>, c: int) -> bool {
    exists|i: int| 0 <= i < vs.len() && #[trigger] vs[i].code == Some(c as u32) && 0 <= c <= u32::MAX
}

/// `codes` gives each variant its code: the explicit one where there is one;
/// otherwise the smallest code from zero up that no variant claims explicitly
/// and no earlier variant was given.
pub open spec fn codes_assigned(vs: Seq<ErrorEnumVariant>, codes: Seq<u64>) -> bool {
    &&& codes.len() == vs.len()
    &&& forall|k: int| 0 <= k < vs.len() && vs[k].code is Some ==> codes[k] == vs[k].code->0
    &&& forall|k: int| 0 <= k < vs.len() && vs[k].code is None ==> !claimed(vs, codes[k] as int)
    &&& forall|a: int, b: int|
        0 <= a < b < vs.len() && vs[a].code is None && vs[b].code is None ==> codes[a] < codes[b]
    &&& forall|k: int, c: int|
        0 <= k < vs.len() && vs[k].code is None && 0 <= c < codes[k] && !claimed(vs, c) ==> exists|a: int|
            0 <= a < k && vs[a].code is None && #[trigger] codes[a] == c
}

fn is_claimed(vs: &Vec<ErrorEnumVariant>, c: u64) -> (r: bool)
    ensures
        r == claimed(vs@, c as int),
{
    let mut i: usize = 0;
    while i < vs.len()
        invariant
            i <= vs.len(),
            forall|k: int| 0 <= k < i ==> !(#[trigger] vs@[k].code == Some(c as u32) && c <= u32::MAX),
        decreases vs.len() - i,
    {
        match vs[i].code {
            Some(x) => {
                if x as u64 == c {
                    return true;
                }
            },
            None => {},
        }
        i += 1;
    }
    false
}

/// The code of each variant, in order.
pub fn error_codes(vs: &Vec<ErrorEnumVariant>) -> (r: Vec<u64>)
    requires
        vs.len() <= u32::MAX,
    ensures
        codes_assigned(vs@, r@),
{
    let mut r: Vec<u64> = Vec::new();
    let mut next: u64 = 0;
    let mut k: usize = 0;
    while k < vs.len()
        invariant
            vs.len() <= u32::MAX,
            k <= vs.len(),
            r.len() == k,
            next <= u32::MAX as int + 1 + k,
            forall|j: int| 0 <= j < k && vs@[j].code is Some ==> r@[j] == vs@[j].code->0,
            forall|j: int| 0 <= j < k && vs@[j].code is None ==> !claimed(vs@, r@[j] as int),
            forall|j: int| 0 <= j < k && vs@[j].code is None ==> r@[j] < next,
            forall|a: int, b: int|
                0 <= a < b < k && vs@[a].code is None && vs@[b].code is None ==> r@[a] < r@[b],
            forall|c: int|
                0 <= c < next && !claimed(vs@, c) ==> exists|a: int|
                    0 <= a < k && vs@[a].code is None && #[trigger] r@[a] == c,
            forall|j: int, c: int|
                0 <= j < k && vs@[j].code is None && 0 <= c < r@[j] && !claimed(vs@, c) ==> exists|a: int|
                    0 <= a < j && vs@[a].code is None && #[trigger] r@[a] == c,
        decreases vs.len() - k,
    {
        let ghost r0 = r@;
        match vs[k].code {
            Some(x) => {
                r.push(x as u64);
                assert forall|c: int| 0 <= c < next && !claimed(vs@, c) implies exists|a: int|
                    0 <= a < k + 1 && vs@[a].code is None && #[trigger] r@[a] == c by {
                    let a = choose|a: int| 0 <= a < k && vs@[a].code is None && #[trigger] r0[a] == c;
                    assert(r@[a] == r0[a]);
                }
            },
            None => {
                while is_claimed(vs, next)
                    invariant
                        vs.len() <= u32::MAX,
                        k < vs.len(),
                        r@ == r0,
                        r.len() == k,
                        next <= u32::MAX as int + 1 + k,
                        forall|j: int| 0 <= j < k && vs@[j].code is None ==> r@[j] < next,
                        forall|c: int|
                            0 <= c < next && !claimed(vs@, c) ==> exists|a: int|
                                0 <= a < k && vs@[a].code is None && #[trigger] r@[a] == c,
                    decreases u32::MAX as int + 1 - next,
                {
                    next = next + 1;
                }
                let ghost n0 = next as int;
                r.push(next);
                next = next + 1;
                assert forall|c: int| 0 <= c < next && !claimed(vs@, c) implies exists|a: int|
                    0 <= a < k + 1 && vs@[a].code is None && #[trigger] r@[a] == c by {
                    if c == n0 {
                        assert(r@[k as int] == c);
                    } else {
                        let a = choose|a: int| 0 <= a < k && vs@[a].code is None && #[trigger] r0[a] == c;
                        assert(r@[a] == r0[a]);
                    }
                }
                assert forall|c: int| 0 <= c < r@[k as int] && !claimed(vs@, c) implies exists|a: int|
                    0 <= a < k && vs@[a].code is None && #[trigger] r@[a] == c by {
                    let a = choose|a: int| 0 <= a < k && vs@[a].code is None && #[trigger] r0[a] == c;
                    assert(r@[a] == r0[a]);
                }
            },
        }
        assert forall|j: int, c: int|
            0 <= j < k + 1 && vs@[j].code is None && 0 <= c < r@[j] && !claimed(vs@, c) implies exists|a: int|
                0 <= a < j && vs@[a].code is None && #[trigger] r@[a] == c by {
            if j < k {
                assert(r@[j] == r0[j]);
                let a = choose|a: int| 0 <= a < j && vs@[a].code is None && #[trigger] r0[a] == c;
                assert(r@[a] == r0[a]);
            }
        }
        k += 1;
    }
    r
}

/// How one character of a message is written inside the display attribute's
/// string literal, which is also a format string.
pub open spec fn escape_char(c: char) -> Seq<char> {
    if c == '"' {
        seq!['\\', '"']
    } else if c == '\\' {
        seq!['\\', '\\']
    } else if c == '\n' {
        seq!['\\', 'n']
    } else if c == '\r' {
        seq!['\\', 'r']
    } else if c == '{' {
        seq!['{', '{']
    } else if c == '}' {
        seq!['}', '}']
    } else {
        seq![c]
    }
}

/// A message escaped character by character.
pub open spec fn escape(m: Seq<char>) -> Seq<char>
    decreases m.len(),
{
    if m.len() == 0 {
        Seq::empty()
    } else {
        escape(m.drop_last()) + escape_char(m.last())
    }
}

/// The display text of a variant: its message, escaped, or its name where it
/// has no message.
pub open spec fn message_text(v: ErrorEnumVariant) -> Seq<char> {
    match v.msg {
        Some(m) => escape(m@),
        None => v.name@,
    }
}

pub open spec fn error_line(v: ErrorEnumVariant, code: u64) -> Seq<char> {
    "    #[error(\""@ + message_text(v) + "\")]\n    "@ + v.name@ + " = "@ + dec(code as nat) + ",\n"@
}

pub open spec fn error_lines(vs: Seq<ErrorEnumVariant>, codes: Seq<u64>) -> Seq<char>
    decreases vs.len(),
{
    if vs.len() == 0 || codes.len() < vs.len() {
        Seq::empty()
    } else {
        error_lines(vs.drop_last(), codes) + error_line(vs.last(), codes[vs.len() - 1])
    }
}

/// The errors module: one error enum, one variant per error, each with its code.
pub open spec fn errors_text(vs: Seq<ErrorEnumVariant>, codes: Seq<u64>) -> Seq<char> {
    "#[derive(Clone, Copy, Debug, Eq, thiserror::Error, num_derive::FromPrimitive, PartialEq)]\npub enum ErrorCode {\n"@
        + error_lines(vs, codes) + "}\n"@
}

/// Relies on String::push: appends the character `c`.
#[verifier::external_body]
fn push_char(s: &mut String, c: char)
    ensures
        final(s)@ == old(s)@.push(c),
{
    s.push(c)
}

fn push_escaped_char(s: &mut String, c: char)
    ensures
        final(s)@ == old(s)@ + escape_char(c),
{
    let ghost start = s@;
    if c == '"' || c == '\\' || c == '\n' || c == '\r' {
        push_char(s, '\\');
        if c == '\n' {
            push_char(s, 'n');
        } else if c == '\r' {
            push_char(s, 'r');
        } else {
            push_char(s, c);
        }
    } else if c == '{' || c == '}' {
        push_char(s, c);
        push_char(s, c);
    } else {
        push_char(s, c);
    }
    assert(s@ =~= start + escape_char(c));
}

fn push_escaped(s: &mut String, m: &String)
    ensures
        final(s)@ == old(s)@ + escape(m@),
{
    broadcast use vstd::string::axiom_spec_iter, vstd::string::next_postcondition;

    let ghost start = s@;
    let ghost all = m@;
    let mut it = m.as_str().chars();
    let ghost mut done: Seq<char> = Seq::empty();
    assert(it.remaining() == all);
    loop
        invariant
            it.obeys_prophetic_iter_laws(),
            all == m@,
            all == done + it.remaining(),
            s@ == start + escape(done),
            it.decrease() is Some,
        ensures
            s@ == start + escape(all),
        decreases it.decrease()->0,
    {
        let ghost before = it.remaining();
        match it.next() {
            Some(c) => {
                push_escaped_char(s, c);
                proof {
                    assert(before[0] == c);
                    let d2 = done.push(c);
                    assert(d2.drop_last() =~= done);
                    assert(all =~= d2 + it.remaining());
                    done = d2;
                }
            },
            None => {
                assert(done =~= all);
                break;
            },
        }
    }
}

/// Source text of the errors module.
pub fn errors_source(vs: &Vec<ErrorEnumVariant>) -> (r: String)
    requires
        vs.len() <= u32::MAX,
    ensures
        exists|codes: Seq<u64>| codes_assigned(vs@, codes) && r@ == errors_text(vs@, codes),
{
    let codes = error_codes(vs);
    let mut s = String::new();
    s.append("#[derive(Clone, Copy, Debug, Eq, thiserror::Error, num_derive::FromPrimitive, PartialEq)]\npub enum ErrorCode {\n");
    let ghost start = s@;
    let mut i: usize = 0;
    while i < vs.len()
        invariant
            i <= vs.len(),
            codes@.len() == vs.len(),
            s@ == start + error_lines(vs@.take(i as int), codes@),
        decreases vs.len() - i,
    {
        s.append("    #[error(\"");
        match &vs[i].msg {
            Some(m) => push_escaped(&mut s, m),
            None => s.append(vs[i].name.as_str()),
        }
        s.append("\")]\n    ");
        s.append(vs[i].name.as_str());
        s.append(" = ");
        push_dec(&mut s, codes[i]);
        s.append(",\n");
        assert(vs@.take(i + 1).drop_last() =~= vs@.take(i as int));
        assert(vs@.take(i + 1).last() == vs@[i as int]);
        assert(s@ =~= start + error_lines(vs@.take(i + 1), codes@));
        i += 1;
    }
    s.append("}\n");
    assert(vs@.take(i as int) =~= vs@);
    assert(s@ =~= errors_text(vs@, codes@));
    s
}

} // verus!
