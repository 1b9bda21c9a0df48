//! A retrieval-augmented chat over employee records loaded from CSV.
//!
//! The library holds everything the program decides or computes:
//! parsing rows into records, the canonical text rendering that is
//! embedded and shown to the chat model, composing the augmented
//! prompt from retrieved records, and the session state machine with
//! its conversation history. The remote embedding and chat services,
//! the vector index over their floating-point embeddings, and the
//! terminal loop live outside the library.

pub mod decimal;
pub mod loader;
pub mod record;
pub mod session;
