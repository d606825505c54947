//! Static analysis of the export surface of a CommonJS module.
//!
//! The analyzer walks a parsed syntax tree of one source file, simulates the
//! common assignment idioms against the magic `module.exports` / `exports`
//! receivers, and returns the names the module exposes together with the
//! specifiers it re-exports wholesale. It never executes the code: when an
//! idiom is not recognized it contributes nothing, so the result is a sound
//! under-approximation of the real export surface.

pub mod ast;
pub mod bindings;
pub mod cjs;
pub mod matchers;
pub mod names;
pub mod text;

pub use bindings::FnDesc;
pub use bindings::IdentKind;
pub use cjs::parse_cjs_exports;
pub use cjs::CJSLexer;
pub use names::NameSet;
