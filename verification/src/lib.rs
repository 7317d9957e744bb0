//! Bytecode backend for the Rusp scripting language.
//!
//! The backend lowers a syntax tree to a class file for a stack-based
//! managed runtime: expressions become symbolic pseudo-instructions, those
//! become concrete slot- and pool-resolved instructions, the instructions
//! are encoded with resolved branch offsets, and the result is laid out as
//! a class file image.

pub mod assembly_laws;
pub mod big_endian;
pub mod bytecode;
pub mod class_file;
pub mod compiler;
pub mod compiler_laws;
pub mod constant_pool;
pub mod descriptor;
pub mod encoding_laws;
pub mod errors;
pub mod jvm_type;
pub mod label_generator;
pub mod lowering_laws;
pub mod parser;
pub mod pool_laws;
pub mod pseudo_instruction;
pub mod structs;
pub mod variable_stack;
