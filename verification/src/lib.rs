//! A generator of TypeScript client code for GraphQL schemas.
//!
//! A schema arrives either as an introspection response or as a parsed
//! schema-definition document. Both are turned into one type model
//! (`schema`), by `schema_introspection` and `schema_sdl`. From the model,
//! `code_generator` emits the text of two modules, the type definitions and
//! the codec, with the text builder of `code_writer`. `file_writer` decides
//! which files a run has to write: a file that starts with the checksum of its
//! new content is left alone. `options` settles the options of a run, and
//! `change` states how a change of the schema shows in the emitted text.
//!
//! The library does no input or output: callers parse the raw schema text,
//! read what the output directory holds and write what the plan says.
//! Everything here is verified, except for one call that is trusted: the
//! checksum of the crate `crc32fast` (in `file_writer`).

pub mod change;
pub mod code_generator;
pub mod code_writer;
pub mod file_writer;
pub mod name_map;
pub mod options;
pub mod schema;
pub mod schema_introspection;
pub mod schema_sdl;
pub mod text;
