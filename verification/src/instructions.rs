//! The instruction set: its definition, the decoder and the execution engine.

pub mod definition;
pub mod execute;
pub mod parse;
pub mod semantics;

pub use definition::Instruction;
pub use execute::DisplayModified;
