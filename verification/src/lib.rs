//! An ordered-frame ingestion pipeline, modelled and verified.
//!
//! A sender produces sequentially numbered frames and posts them to a named
//! mailbox; a writer group drains the mailbox and fans each frame out to an
//! independent persistence task keyed by the frame's sequence number. A
//! supervisor owns both halves under a one-for-one restart policy. The
//! decision logic of every component lives here with contracts; the runtime
//! shell (actor framework, async file I/O, logging) stays outside the library.

pub mod errors;
pub mod frame;
pub mod keys;
pub mod mailbox;
pub mod sender;
pub mod supervisor;
pub mod writer;
