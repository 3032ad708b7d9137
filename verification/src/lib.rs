//! Verified SIA32 code-generation facilities: the architectural register
//! model, exact instruction encodings, the compiler ABI (argument placement,
//! frame layout, prologue and epilogue sequences, call clobbers), local label
//! fixups, relocation arithmetic, machine-instruction emission and register
//! operands, the instructions produced by the lowering rules, and the table of
//! ISLE compilation units.

pub mod regs;
pub mod encode;
pub mod m7;
pub mod i64_prep;
pub mod abi_contract;
pub mod abi;
pub mod label;
pub mod buffer;
pub mod reloc;
pub mod consts;
pub mod inst;
pub mod emit;
pub mod effect;
pub mod operands;
pub mod lower;
pub mod backend;
pub mod isle;
