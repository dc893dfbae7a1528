//! Loading, editing, writing and sequencing of PxTone Collage (`.ptcop`) projects.
//!
//! `codec` holds the byte-level integer codecs, `event` the events and their ordered list,
//! `woice` the instruments, `project` the project itself, `io` and `ptv` the reader,
//! `writer` the writer, `moo` the sequencing decisions of the renderer, and `error` the
//! engine's error codes.

pub mod codec;
pub mod event;
pub mod woice;
pub mod project;
pub mod io;
pub mod ptv;
pub mod moo;
pub mod error;
pub mod writer;
