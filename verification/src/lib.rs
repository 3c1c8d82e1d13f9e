//! Loader for compiled kernel-bytecode (BPF) object files.
//!
//! The library reads a relocatable ELF object, classifies its sections by a
//! `kind[/name]` naming convention, extracts the license, the required
//! kernel version, map configurations and program bytecode, and resolves
//! symbolic relocations by patching instruction operands to reference
//! concrete kernel map handles.
//!
//! Kernel interactions (map creation, program load, attaching, the running
//! kernel's version) are performed by a collaborator layer outside this
//! crate; their results enter the library as plain handles.  The pipeline
//! is therefore split around those calls:
//!
//! 1. [`elf::read_object`] parses the raw bytes into the structural model;
//! 2. [`module::scan`] classifies every section and extracts the pending
//!    module (pass 1);
//! 3. the caller asks the map-creation collaborator for one handle per
//!    extracted map configuration;
//! 4. [`module::link`] materializes the map table from those handles,
//!    resolves every pending relocation, and assembles the
//!    [`module::Module`] (pass 2); [`module::parse`] combines 2 and 4.
//!
//! Loading and attaching a program follow the same request/complete split:
//! the guard runs first in verified code, the collaborator is called
//! outside, and its handle is stored exactly once.

pub mod bytes;
pub mod elf;
pub mod error;
pub mod events;
pub mod insn;
pub mod map;
pub mod module;
pub mod program;
pub mod reloc;
pub mod section;
pub mod xdp;
