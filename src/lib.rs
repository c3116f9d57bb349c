//! A 16-bit register machine driven one instruction word at a time: the
//! decoder, the execution engine, the state report, and the parsing of
//! opcode requests and client commands.

pub mod command;
pub mod decode;
pub mod export;
pub mod instruction;
pub mod request;
pub mod vm;
