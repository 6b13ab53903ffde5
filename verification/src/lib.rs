//! A parser-combinator engine.
//!
//! A small set of primitive matchers (character, range, string,
//! predicate) is composed through combinators (sequence, alternation,
//! repetition, negative lookahead, optional) into parsers that consume
//! an input stream and produce either a semantic value or a structured
//! parse error.  A companion facility compiles a textual grammar
//! description at runtime into the same combinator representation.
//!
//! The crate is organised leaf-first:
//!
//! - [`state`] — stream positions, the atomic unit saved and restored
//!   during backtracking;
//! - [`chars`] — character classes, escape tables, trimming and
//!   numeric reading;
//! - [`err`] — parse errors, their merge policy and their rendering;
//! - [`input`] — one cursor/backtracking interface over in-memory
//!   text, file contents and non-seekable streams, with a replay
//!   buffer for the latter;
//! - [`ast`] — the generic tree output type that fold hooks build;
//! - [`val`] — semantic values and the named fold, apply and check
//!   hooks that transform them;
//! - [`parser`] — the combinator node type, its rule table and the
//!   core constructors;
//! - [`combinators`] — the derived matchers and conveniences;
//! - [`eval`] — the evaluation engine: a pure semantics
//!   ([`eval::eval_spec`]) and the executable matcher proved to follow
//!   it, with the top-level parse drivers;
//! - [`laws`] — proved laws of the engine: backtracking integrity and
//!   the termination of repetition;
//! - [`grammar`] — the runtime compiler from grammar text to
//!   combinator nodes.

pub mod ast;
pub mod chars;
pub mod combinators;
pub mod err;
pub mod eval;
pub mod grammar;
pub mod input;
pub mod laws;
pub mod parser;
pub mod state;
pub mod val;
