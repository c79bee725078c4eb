//! A CHIP-8 virtual machine: the instruction interpreter and the monochrome
//! framebuffer it draws into.
//!
//! [`machine::Machine`] is the machine as a mathematical value, with what
//! loading a program and carrying out an instruction do to it.
//! [`cpu::Cpu`] is the interpreter that runs; its contracts say that it does
//! what the model says. [`theorems`] holds what follows for every machine.

pub mod cpu;
pub mod display;
pub mod instruction;
pub mod machine;
pub mod renderer;
pub mod theorems;
