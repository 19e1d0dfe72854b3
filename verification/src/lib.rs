//! A simulator for a small subset of the MIPS32 instruction set.
//!
//! - `mem`: the sparse memory of words.
//! - `bus`: the bus to the memory, with the two memory-mapped I/O
//!   addresses and the streams behind them.
//! - `instr`: the instructions, the decoder and the assembly syntax.
//! - `word`: the arithmetic on words.
//! - `cpu`: the registers and the fetch-step interpreter.
//! - `debug`: the debugger that steps forwards and backwards.
//! - `loader`: loading a program image and handing a program its input.
//! - `args`: the command line.
//! - `number`, `text`: numbers from text and as text.
//!
//! The library does no input or output. A host reads the program image,
//! the command lines and the input stream and hands them over, and prints
//! what it is given.

pub mod args;
pub mod bus;
pub mod cpu;
pub mod debug;
pub mod instr;
pub mod loader;
pub mod mem;
pub mod number;
pub mod text;
pub mod word;
