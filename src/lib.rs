//! Two-pass assembler core for a small register machine: operator and
//! register catalogs, an instruction decoder, a label table and a resolver
//! that turns label references into PC-relative displacements.
pub mod isa;
pub mod lex;
pub mod decode;
pub mod assemble;
pub mod laws;
pub mod render;
