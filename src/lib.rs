pub mod entry;
pub mod error;
pub mod foo;
pub mod laws;
pub mod program;
pub mod semantics;
pub mod value;
pub mod vm;
