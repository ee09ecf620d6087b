//! A small query engine over semi-structured records.
//!
//! A record maps field names to scalar values. A predicate is a tree, a
//! [`BoolExpr`] over [`ValueExpr`]s, that is evaluated against one record at
//! a time in either of two ways: by walking the tree ([`BoolExpr::evaluate`]),
//! or by compiling it once ([`BoolExpr::to_opcode`]) into a straight-line
//! program of [`OpCode`]s and running that on a stack machine ([`execute`]).
//! A value that is missing or of the wrong kind is no error: the predicate
//! then has no result for the record.
//!
//! - [`number`], [`value`]: the scalars, their equality and their coercions.
//! - [`record`]: records.
//! - [`transform`]: case transforms on strings.
//! - [`expr`]: the trees, what they mean, and the tree walk.
//! - [`opcode`]: the opcodes, and the compiler from trees to programs.
//! - [`vm`]: what a program means, and the stack machine.
//! - [`equivalence`]: how far the two ways agree, and where they differ.
//! - [`text`]: a second, simpler engine for rows whose fields are all text.
//! - [`delimited`]: rows of text from lines of comma-separated fields.

pub mod delimited;
pub mod equivalence;
pub mod expr;
pub mod number;
pub mod opcode;
pub mod record;
pub mod text;
pub mod transform;
pub mod value;
pub mod vm;

pub use expr::{BoolExpr, BoolExprView, ValueExpr, ValueExprView};
pub use number::Number;
pub use opcode::{OpCode, OpCodeView};
pub use record::Record;
pub use transform::StringTransform;
pub use value::{Value, ValueView};
pub use vm::{evaluate, execute, ProgramError};
