//! A terminal chat session engine: conversation history, incremental
//! stream assembly, tool-call extraction and arbitration, and tool-result
//! formatting, with machine-checked contracts.

pub mod extract;
pub mod laws;
pub mod session;
pub mod stream;
pub mod text;
pub mod toolexec;
pub mod turn;
