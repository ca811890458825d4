//! The disassembler: bytecode and class-file structures as text.

pub mod access_flag;
pub mod code;
pub mod instruction;
pub mod method;
pub mod render;
pub mod same_value;
pub mod signature_type;
pub mod text;
