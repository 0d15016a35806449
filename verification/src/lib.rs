//! A flat, handle-oriented layer over the `regex` engine: compiled patterns,
//! pattern sets, reusable capture buffers and resumable match cursors, each
//! with a contract over the engine's results.

pub mod capture_names;
pub mod captures;
pub mod encoding;
pub mod engine;
pub mod error;
pub mod flags;
pub mod iter;
pub mod names;
pub mod options;
pub mod pattern;
pub mod set;

pub use crate::capture_names::{
    rure_iter_capture_names_new, rure_iter_capture_names_next, IterCaptureNames,
};
pub use crate::captures::{
    rure_captures_at, rure_captures_len, rure_captures_new, rure_find_captures, rure_match,
    Captures,
};
pub use crate::error::{Error, ErrorKind};
pub use crate::flags::{
    decode_flags, Flags, RURE_DEFAULT_FLAGS, RURE_FLAG_CASEI, RURE_FLAG_DOTNL, RURE_FLAG_MULTI,
    RURE_FLAG_SPACE, RURE_FLAG_SWAP_GREED, RURE_FLAG_UNICODE,
};
pub use crate::iter::{rure_iter_new, rure_iter_next, rure_iter_next_captures, Iter, Step};
pub use crate::names::NameTable;
pub use crate::options::{
    rure_options_dfa_size_limit, rure_options_new, rure_options_size_limit, Options,
    DEFAULT_DFA_SIZE_LIMIT, DEFAULT_SIZE_LIMIT,
};
pub use crate::pattern::{
    rure_capture_name_index, rure_compile, rure_find, rure_is_match, rure_shortest_match, Regex,
};
pub use crate::set::{
    rure_compile_set, rure_set_is_match, rure_set_len, rure_set_matches, RegexSet,
};
