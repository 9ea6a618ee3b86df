//! Source text of the events module: a structure per event, written as the
//! typedefs module writes a struct, with the tag that marks it in logs.
use vstd::prelude::*;
use crate::accounts::{bytes_text, push_bytes};
use crate::discm::{discriminator, spec_discm};
use crate::typedefs::{field_lines, push_field_lines};
use crate::types::Event;

verus! {

pub open spec fn event_text(e: Event) -> Seq<char> {
    "#[derive(Clone, Debug, BorshDeserialize, BorshSerialize, PartialEq)]\npub struct "@ + e.name@
        + " {\n"@ + field_lines("    pub "@, e.fields@) + "}\nimpl "@ + e.name@
        + " {\n    pub const DISCM: [u8; 8] = "@ + bytes_text(spec_discm("event:"@, e.name@))
        + ";\n}\n"@
}

pub open spec fn events_text(es: Seq<Event>) -> Seq<char>
    decreases es.len(),
{
    if es.len() == 0 {
        Seq::empty()
    } else {
        events_text(es.drop_last()) + event_text(es.last())
    }
}

/// The source emitted for one event.
pub fn event_source(e: &Event) -> (r: String)
    ensures
        r@ == event_text(*e),
{
    let mut s = String::new();
    s.append("#[derive(Clone, Debug, BorshDeserialize, BorshSerialize, PartialEq)]\npub struct ");
    s.append(e.name.as_str());
    s.append(" {\n");
    push_field_lines(&mut s, "    pub ", &e.fields);
    s.append("}\nimpl ");
    s.append(e.name.as_str());
    s.append(" {\n    pub const DISCM: [u8; 8] = ");
    let tag = discriminator("event:", e.name.as_str());
    push_bytes(&mut s, &tag);
    s.append(";\n}\n");
    assert(s@ =~= event_text(*e));
    s
}

/// Source text of the events module.
pub fn events_source(es: &Vec<Event>) -> (r: String)
    ensures
        r@ == events_text(es@),
{
    let mut s = String::new();
    let mut i: usize = 0;
    while i < es.len()
        invariant
            i <= es.len(),
            s@ == events_text(es@.take(i as int)),
        decreases es.len() - i,
    {
        let text = event_source(&es[i]);
        s.append(text.as_str());
        assert(es@.take(i + 1).drop_last() =~= es@.take(i as int));
        i += 1;
    }
    assert(es@.take(i as int) =~= es@);
    s
}

} // verus!
