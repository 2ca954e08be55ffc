//! Compiler core for a register-based virtual machine: resolves intra-unit
//! control-flow references inside an instruction sequence and folds the
//! sequence into an immutable, content-addressed executable unit.
//!
//! Instructions may carry a *local* goto reference naming a target by its
//! logical routine index (the order in which entry-point instructions appear
//! in the sequence). Before the sequence can be encoded, every such reference
//! is rewritten to the absolute byte offset of its target inside the final
//! bytecode. The work splits into two passes over variable-length
//! instructions: a scan that records the byte offset of every routine entry
//! point, and a patch pass that rewrites each goto field, failing fast on a
//! reference that names no known routine.

pub mod assembler;
pub mod compiler;
pub mod isa;
