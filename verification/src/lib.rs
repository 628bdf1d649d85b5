//! Execution core of a small class-based object runtime: a packed one-word
//! value encoding, an arena-backed heap object model, a class/module graph
//! with ancestor-order method resolution, and the calling convention used by
//! native methods, including re-entry into interpreted code through a
//! caller-supplied evaluator.

pub mod array;
pub mod builtin;
pub mod class;
pub mod globals;
pub mod ident;
pub mod idmap;
pub mod lexer;
pub mod method;
pub mod object;
pub mod parser;
pub mod reflect;
pub mod string;
pub mod value;
pub mod vm;
