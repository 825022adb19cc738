//! A microcoded virtual processor: a register file over a flat byte
//! buffer, two addressable stores, a catalog of atomic micro-operations,
//! and a clock-driven fetch/decode/execute state machine that runs one
//! micro-operation per tick. Machine values are big-endian byte strings
//! of configurable width; their semantics, and the semantics of every
//! micro-operation and of the clock itself, are stated as specification
//! functions that each executable step is proved to follow exactly.

pub mod values;
pub mod computer;
pub mod writers;
pub mod instructions;
pub mod laws;
