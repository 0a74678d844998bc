//! Core logic of a GDB remote-protocol server for one ptrace-controlled
//! x86_64 tracee: the register block codec, word-wise memory transfer,
//! wait-status decoding, range stepping and the request rules of the server.

pub mod wire;
pub mod regs;
pub mod mem;
pub mod status;
pub mod text;
pub mod rsp;
pub mod cli;
pub mod kernel;

pub use cli::Opt;
pub use mem::{getmem, setmem};
pub use regs::Registers;
