//! A compiler for SysY, a small C-like language: it lowers the syntax tree to a
//! Koopa-style intermediate representation and from there to RISC-V assembly.

pub mod ast;
pub mod export;
pub mod ir;
pub mod mem;
pub mod program;
pub mod riscv;
pub mod text;
pub mod tools;
