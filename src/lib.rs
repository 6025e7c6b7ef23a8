pub mod bytes;
pub mod error;
pub mod instruction;
pub mod memory;
pub mod vm;
