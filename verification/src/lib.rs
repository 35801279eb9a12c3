//! A register-based virtual machine with fourteen instructions on 32-bit
//! words: wrap-around arithmetic, a heap of dynamically allocated word
//! arrays keyed by reusable 32-bit identifiers, and a self-modifying
//! program array from which instructions are fetched.

pub mod types;
pub mod op;
pub mod register;
pub mod instruction;
pub mod errors;
pub mod memory;
pub mod machine;
pub mod program;
