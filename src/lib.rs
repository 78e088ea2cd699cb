//! Cupana: a fictional 16-bit machine and its assemblers.
//!
//! - `bus`: the address space (ROM, RAM, stack, MMIO devices) and word access.
//! - `memory`: a flat 64 KiB memory without devices.
//! - `machine`: the CPU: decoding, execution, stack and interrupts.
//! - `console`: a UART-style MMIO device.
//! - `cupana`: the host loop that steps the CPU and polls the devices.
//! - `casm_lexer`, `casm_parser`, `casm`: the two-pass assembler that emits
//!   the CPU's binary encoding.
//! - `asm_parser`, `asm_codegen`, `asm_driver`: a line-oriented assembler that
//!   lists code as 16-bit words.
//! - `symbols`: label and alias tables; `text`: ASCII case folding.

pub mod error;
pub mod bus;
pub mod memory;
pub mod machine;
pub mod console;
pub mod cupana;
pub mod text;
pub mod symbols;
pub mod casm_lexer;
pub mod casm_parser;
pub mod casm;
pub mod asm_parser;
pub mod asm_codegen;
pub mod asm_driver;
