//! A verified client driver for a document-database wire protocol.
//!
//! Query terms are built by a small family of builder types and rendered as
//! structured values; a connection frames each query with a little-endian
//! token and length prefix, exchanges it over a byte stream after a fixed
//! handshake, and matches every response token against the one just sent.

pub mod conn;
pub mod errors;
pub mod model;
pub mod stream;
pub mod term;

pub use conn::{
    ConnState, Connection, build_frame, check_greeting, lemma_frame_recoverable,
    lemma_tokens_sequential, make_envelope,
};
pub use errors::{Error, UnknownError};
pub use model::ValueModel;
pub use stream::{ByteStream, MemStream, read_exact, read_string, read_until_nul, utf8_to_string};
pub use term::{Database, Filter, Insert, Object, Reql, Sequence, Table, lemma_render_deterministic};
