//! Parsing of 64-bit little-endian ELF relocatable objects and rewriting of
//! their absolute data relocations into `R_X86_64_COPY` entries.

pub mod bytes;
pub mod types;
pub mod strtab;
pub mod relocate;
pub mod elf;
pub mod laws;
