//! A builder for quantum programs and the textual intermediate representation it emits.
//!
//! A program has a name, one register of qubits and one of results, and a sequence of
//! instructions: gates, rotations, measurements, and conditionals on a measured
//! result, whose bodies are sequences of instructions again.
//!
//! - `registry`: registers and the identifiers of their slots.
//! - `instruction`: the instruction set.
//! - `model`: the program model and what it admits.
//! - `emit`: the text of a program.
//! - `access`: the guard that keeps writers alone.
//! - `reference`: references to slots by index.
//! - `builder`: the builder that appends to a program and assembles conditionals.
//! - `qis`: the instruction set as calls on a builder.
//! - `module`: a program together with its builder.
//! - `laws`: what holds of all programs, proved.
//! - `text`: numerals written and read.
//!
//! Every function states what it returns and changes, and is proved to do so.
pub mod access;
pub mod builder;
pub mod emit;
pub mod error;
pub mod instruction;
pub mod laws;
pub mod model;
pub mod module;
pub mod qis;
pub mod reference;
pub mod registry;
pub mod text;

pub use crate::access::Access;
pub use crate::builder::Builder;
pub use crate::emit::get_ir_string;
pub use crate::error::Error;
pub use crate::instruction::{Controlled, If, Instruction, Measured, Rotated, Single};
pub use crate::model::SemanticModel;
pub use crate::module::SimpleModule;
pub use crate::qis::BasicQisBuilder;
pub use crate::reference::{Qubit, Ref, RefKind};
pub use crate::registry::{ClassicalRegister, QuantumRegister};
