//! A verified implementation of a small 32-bit virtual machine and its
//! companion assembler.
//!
//! The machine executes fixed-width instructions against a bank of 32-bit
//! registers and a flat little-endian byte memory.  Every thread core carries
//! an access window `[min, max)`; accesses outside it set the error flag and
//! are otherwise dropped.  The assembler translates the textual source
//! language (labels, variables, data directives and mnemonics) into the flat
//! image the machine loads.
//!
//! Words are little-endian throughout — memory access, instruction words,
//! inline literals and data — so the machine reads back exactly the images
//! its assembler emits.

pub mod alu;
pub mod arch;
pub mod assembler;
pub mod cpu;
pub mod debugger;
pub mod device;
pub mod exec;
pub mod expr;
pub mod isa;
pub mod laws;
pub mod lexer;
pub mod machine;
pub mod mem;
pub mod screen;
pub mod text;
