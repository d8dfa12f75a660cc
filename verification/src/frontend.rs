pub mod cache;
pub mod elf;
pub mod instruction;
