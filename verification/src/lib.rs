//! A code generator that lowers a small stack-machine instruction set
//! (a subset of WebAssembly) to textual assembly for a Z80-family
//! processor. The generator is deterministic: the emitted listing is
//! pinned, byte for byte, by the contracts in this crate.

pub mod compile;
pub mod label;
pub mod props;
pub mod text;

pub use compile::CompileError;
pub use compile::FunctionDef;
pub use compile::Module;
pub use compile::Op;
pub use label::Label;
pub use label::Labeler;
pub use text::dec_str;
