//! Placeholder substitution over YAML text, resolved against layered
//! sources: positional command-line arguments, an environment
//! snapshot, and the document's own parsed content.
//!
//! The pipeline runs two passes over the raw text. The first pass is
//! lenient: placeholders such as `${{ 0 }}` and `${{ ENV:TITLE }}`
//! are filled from the arguments and the environment, and a key that
//! does not resolve keeps its placeholder text. The first pass's
//! output is parsed, and the second pass resolves dotted keys such as
//! `${{ a.b.2 }}` against that document; there a miss is an error.
//! Only scalar values ever expand; a placeholder aimed at a sequence
//! or a mapping never resolves.

pub mod node;
pub mod numtext;
pub mod keypath;
pub mod context;
pub mod engine;
pub mod pipeline;
pub mod laws;
