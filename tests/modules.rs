use solores::accounts::account_source;
use solores::errors::errors_source;
use solores::events::events_source;
use solores::idl::{AnchorIdl, CodegenModule};
use solores::instructions::instruction_source;
use solores::resolver::IdlError;
use solores::types::{
    ErrorEnumVariant, Event, Field, IxAccount, IxAccountEntry, IxAccountGroup, NamedAccount,
    NamedInstruction, PrimitiveType, TypeDef, TypeRef,
};

fn counter_account() -> NamedAccount {
    NamedAccount {
        name: "Counter".to_string(),
        ty: TypeDef::Struct(vec![Field {
            name: "count".to_string(),
            ty: TypeRef::Primitive(PrimitiveType::U64),
        }]),
    }
}

fn increment() -> NamedInstruction {
    NamedInstruction {
        name: "Increment".to_string(),
        accounts: vec![IxAccountEntry::Single(IxAccount {
            name: "counter".to_string(),
            is_mut: true,
            is_signer: false,
        })],
        args: vec![],
    }
}

fn overflow() -> ErrorEnumVariant {
    ErrorEnumVariant { code: Some(1), name: "Overflow".to_string(), msg: Some("Counter overflow".to_string()) }
}

const COUNTER_TEXT: &str = "#[derive(Clone, Debug, BorshDeserialize, BorshSerialize, PartialEq)]\npub struct Counter {\n    pub count: u64,\n}\nimpl Counter {\n    pub const DISCM: [u8; 8] = [255, 176, 4, 245, 188, 253, 124, 25];\n    pub fn encode<W: std::io::Write>(&self, mut writer: W) -> std::io::Result<()> {\n        writer.write_all(&Self::DISCM)?;\n        borsh::BorshSerialize::serialize(self, &mut writer)\n    }\n    pub fn decode(buf: &[u8]) -> std::io::Result<Self> {\n        if buf.len() < 8 || buf[..8] != Self::DISCM {\n            return Err(std::io::Error::new(std::io::ErrorKind::InvalidData, \"discriminator mismatch\"));\n        }\n        let mut rest = &buf[8..];\n        <Self as borsh::BorshDeserialize>::deserialize(&mut rest)\n    }\n}\n";

const INCREMENT_TEXT: &str = "#[derive(Clone, Debug, BorshDeserialize, BorshSerialize, PartialEq)]\npub struct IncrementIxArgs {\n}\nimpl IncrementIxArgs {\n    pub const DISCM: [u8; 8] = [182, 99, 86, 126, 43, 162, 31, 43];\n    pub fn data(&self) -> std::io::Result<Vec<u8>> {\n        let mut data = Self::DISCM.to_vec();\n        borsh::BorshSerialize::serialize(self, &mut data)?;\n        Ok(data)\n    }\n    pub fn ix(&self, counter: Pubkey) -> std::io::Result<(Vec<(Pubkey, bool, bool)>, Vec<u8>)> {\n        let accounts = vec![\n            (counter, true, false),\n        ];\n        Ok((accounts, self.data()?))\n    }\n}\n";

const OVERFLOW_TEXT: &str = "#[derive(Clone, Copy, Debug, Eq, thiserror::Error, num_derive::FromPrimitive, PartialEq)]\n\
pub enum ErrorCode {\n    #[error(\"Counter overflow\")]\n    Overflow = 1,\n}\n";

#[test]
fn counter_account_source() {
    assert_eq!(account_source(&counter_account(), false), COUNTER_TEXT);
    let zc = account_source(&counter_account(), true);
    assert!(zc.starts_with("#[repr(C)]\n#[derive(Clone, Copy, Debug, PartialEq, Pod, Zeroable)]\n"));
    assert!(!zc.contains("Borsh"));
    assert!(zc.contains("writer.write_all(&Self::DISCM)?;\n        writer.write_all(bytemuck::bytes_of(self))\n"));
    assert!(zc.contains("bytemuck::try_pod_read_unaligned(&buf[8..])"));
}

#[test]
fn increment_instruction_source() {
    assert_eq!(instruction_source(&increment()), INCREMENT_TEXT);
}

#[test]
fn nested_account_groups_in_instruction_source() {
    let ix = NamedInstruction {
        name: "Swap".to_string(),
        accounts: vec![
            IxAccountEntry::Group(IxAccountGroup {
                name: "pool".to_string(),
                accounts: vec![
                    IxAccountEntry::Single(IxAccount { name: "state".to_string(), is_mut: true, is_signer: false }),
                    IxAccountEntry::Single(IxAccount { name: "authority".to_string(), is_mut: false, is_signer: true }),
                ],
            }),
            IxAccountEntry::Single(IxAccount { name: "user".to_string(), is_mut: true, is_signer: true }),
        ],
        args: vec![Field { name: "amount".to_string(), ty: TypeRef::Primitive(PrimitiveType::U64) }],
    };
    let text = instruction_source(&ix);
    assert!(text.contains("pub struct SwapIxArgs {\n    pub amount: u64,\n}\n"));
    assert!(text.contains("pub fn ix(&self, state: Pubkey, authority: Pubkey, user: Pubkey)"));
    assert!(text.contains(
        "vec![\n            (state, true, false),\n            (authority, false, true),\n            (user, true, true),\n        ];\n"
    ));
}

#[test]
fn overflow_error_source() {
    assert_eq!(errors_source(&vec![overflow()]), OVERFLOW_TEXT);
}

#[test]
fn error_messages_are_escaped() {
    let vs = vec![
        ErrorEnumVariant { code: None, name: "Quoted".to_string(), msg: Some("say \"hi\" {now}\\".to_string()) },
        ErrorEnumVariant { code: None, name: "Bare".to_string(), msg: None },
        ErrorEnumVariant { code: Some(0), name: "Taken".to_string(), msg: Some("zéro\nline".to_string()) },
    ];
    assert_eq!(
        errors_source(&vs),
        "#[derive(Clone, Copy, Debug, Eq, thiserror::Error, num_derive::FromPrimitive, PartialEq)]\npub enum ErrorCode {\n    #[error(\"say \\\"hi\\\" {{now}}\\\\\")]\n    Quoted = 1,\n    #[error(\"Bare\")]\n    Bare = 2,\n    #[error(\"zéro\\nline\")]\n    Taken = 0,\n}\n"
    );
}

#[test]
fn event_source_carries_its_tag() {
    let e = Event {
        name: "Moved".to_string(),
        fields: vec![Field { name: "by".to_string(), ty: TypeRef::Primitive(PrimitiveType::I64) }],
    };
    let text = events_source(&vec![e]);
    assert!(text.starts_with(
        "#[derive(Clone, Debug, BorshDeserialize, BorshSerialize, PartialEq)]\npub struct Moved {\n    pub by: i64,\n}\nimpl Moved {\n    pub const DISCM: [u8; 8] = ["
    ));
    assert!(text.ends_with("];\n}\n"));
}

#[test]
fn counter_generation_end_to_end() {
    let idl = AnchorIdl {
        name: "counter".to_string(),
        version: "0.1.0".to_string(),
        metadata: None,
        accounts: Some(vec![counter_account()]),
        types: None,
        instructions: Some(vec![increment()]),
        errors: Some(vec![overflow()]),
        events: None,
    };
    let g = idl.generate(&vec![]).unwrap();
    let modules: Vec<CodegenModule> = g.units.iter().map(|u| u.module).collect();
    assert_eq!(modules, vec![CodegenModule::Accounts, CodegenModule::Instructions, CodegenModule::Errors]);
    assert_eq!(g.units[0].text, COUNTER_TEXT);
    assert_eq!(g.units[1].text, format!("//! Generated for the `counter` program.\n{INCREMENT_TEXT}"));
    assert_eq!(g.units[2].text, format!("//! Generated for the `counter` program.\n{OVERFLOW_TEXT}"));
    assert!(g.flags.has_errors);
    assert!(!g.flags.uses_zero_copy);
}

#[test]
fn failed_run_emits_nothing() {
    let mut ix = increment();
    ix.args.push(Field { name: "x".to_string(), ty: TypeRef::Defined("Missing".to_string(), vec![]) });
    let idl = AnchorIdl {
        name: "p".to_string(),
        version: "0".to_string(),
        metadata: None,
        accounts: None,
        types: None,
        instructions: Some(vec![ix]),
        errors: None,
        events: None,
    };
    assert!(matches!(idl.generate(&vec![]), Err(IdlError::UnresolvedReference(n, loc)) if n == "Missing" && loc == "Increment"));
}

#[test]
fn bare_definition_generates_no_unit() {
    let idl = AnchorIdl {
        name: "p".to_string(),
        version: "0".to_string(),
        metadata: None,
        accounts: None,
        types: None,
        instructions: None,
        errors: None,
        events: None,
    };
    let g = idl.generate(&vec![]).unwrap();
    assert!(g.units.is_empty());
}
