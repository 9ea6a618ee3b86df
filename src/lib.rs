//! Normalisation of Anchor interface descriptions into a checked type graph,
//! and the generation of a client library's source modules from it.
//!
//! `types` and `idl` hold the program definition; `tokens` maps the dialect's
//! scalar type tokens onto the model. `resolver` (over `graph`) closes type
//! references and rejects declarations that contain themselves; `discm`
//! derives and checks discriminators. `typedefs`, `accounts`, `instructions`,
//! `errors` and `events` emit the five source modules, and `pipeline` runs
//! the whole. `cargotoml` decides the generated crate's manifest.
pub mod types;
pub mod idl;
pub mod tokens;
pub mod graph;
pub mod resolver;
pub mod discm;
pub mod typedefs;
pub mod accounts;
pub mod instructions;
pub mod errors;
pub mod events;
pub mod pipeline;
pub mod cargotoml;
