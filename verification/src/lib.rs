//! The verified core of the XCX tool chain: the static analyses over bytecode
//! that the JIT compiler runs before code generation; the register facts,
//! value packing and condition codes that code generation relies on; and the
//! interactive mode's line editor, syntax highlighting and command handling,
//! with the reading of the command line.
pub mod model;
pub mod regset;
pub mod locals;
pub mod init;
pub mod ints;
pub mod nonptr;
pub mod maybeptr;
pub mod types;
pub mod highlight;
pub mod text;
pub mod repl;
pub mod cli;
pub mod editor;
pub mod regfacts;
pub mod nanbox;
pub mod cond;
