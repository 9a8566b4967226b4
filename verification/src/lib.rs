//! A code-scaffold generator's core: prompt construction for a language-model
//! request, strict decoding of the model's structured reply into a project
//! document, and materialization of that document as a directory tree through
//! a small filesystem capability interface.
pub mod decode;
pub mod fs;
pub mod jsonrep;
pub mod materialize;
pub mod prompt;
pub mod schema;
pub mod strutil;
