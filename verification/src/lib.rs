pub mod auto_deduction;
pub mod bigint;
pub mod builtin_laws;
pub mod builtin_runner;
pub mod decoder;
pub mod decoder_laws;
pub mod errors;
pub mod hint_laws;
pub mod hint_processor;
pub mod instruction;
pub mod instruction_laws;
pub mod laws;
pub mod memory;
pub mod memory_laws;
pub mod message_laws;
pub mod messages;
pub mod model;
pub mod modular;
pub mod operand_laws;
pub mod register_laws;
pub mod relocatable;
pub mod run_context;
pub mod value_laws;
pub mod verification_laws;
pub mod vm_core;
