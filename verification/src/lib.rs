//! A toolchain for the RV32I base integer instruction set: a two-pass text
//! assembler producing 32-bit little-endian machine words, and a functional
//! simulator executing those words against a byte-addressable memory and a
//! 32-entry register file with `x0` wired to zero.

use vstd::prelude::*;

/// The assembler: lines and programs to machine words.
pub mod assembler;
/// Assertions about the state of an MCU.
pub mod assertions;
/// Bit-level helpers shared by the encoder and the decoder.
pub mod bits;
/// RV32I opcode, funct3 and funct7 values.
pub mod constants;
/// Field-level instruction decoders.
pub mod decode;
/// Field-level instruction encoders.
pub mod encode;
/// Error enumerations for the simulator and the assembler.
pub mod error;
/// Fetch-decode-execute of one instruction per step.
pub mod exec;
/// The label table of the assembler.
pub mod labels;
/// The aggregate simulator state.
pub mod mcu;
/// The byte-addressable little-endian memory.
pub mod memory;
/// Token parsing: mnemonics, registers and immediates.
pub mod parse;
/// Pseudo-instruction expansion.
pub mod pseudo;
/// The 32-entry register file.
pub mod register_file;
/// Character-level text utilities.
pub mod text;
/// Lexing of assembly lines into tokens.
pub mod tokenizer;

pub use assembler::assemble_buf;
pub use assembler::assemble_ir;
pub use assembler::assemble_program;
pub use assembler::parse_labels;
pub use assertions::Assertions;
pub use error::AssemblerError;
pub use error::RiscvError;
pub use exec::exec_one;
pub use labels::LabelTable;
pub use mcu::Mcu;
pub use memory::Memory;
pub use parse::match_opcode;
pub use parse::match_register;
pub use parse::parse_imm;
pub use pseudo::transform_psuedo_ir;
pub use register_file::RegisterFile;
pub use tokenizer::tokenize;

verus! {

} // verus!
