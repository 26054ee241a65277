//! The execution core of a small dynamic language.
//!
//! A compiled program is a [`chunk::Chunk`]: a flat sequence of instructions
//! with the functions and types they name. The [`machine::Vm`] runs it against
//! a [`frames::Frame`] of a [`frames::Heap`], on a stack of
//! [`values::Value`]s. Names are resolved through the frame's own bindings,
//! then its `closure` link, then its `root` link. Whatever leaves the straight
//! path of execution is a [`flow::ControlFlow`]: a fault, or a `Return`,
//! `Break` or `Continue` on its way to the call or loop that owns it.
//!
//! Every function comes with a contract over the mathematical state of the
//! heap and the machine, and `scoping` and `signals` hold what follows from
//! those contracts for all programs.

pub mod address;
pub mod chunk;
pub mod errors;
pub mod flow;
pub mod frames;
pub mod machine;
pub mod operators;
pub mod scoping;
pub mod signals;
pub mod values;
