//! What the client and the registrar have in common.

pub mod addr;
pub mod crypto;
pub mod net;
pub mod seqs;
pub mod text;
pub mod wire;
