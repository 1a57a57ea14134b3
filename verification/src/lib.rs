//! A verified SHA-256 digest engine: message padding, big-endian word
//! schedule expansion, and the 64-round compression function over an
//! 8-word hash state, specified against a mathematical model of the
//! algorithm and proved to match it.
pub mod compress;
pub mod engine;
pub mod padding;
pub mod words;

pub use engine::digest;
pub use engine::hash_loop;
pub use padding::make_padded_vec;
pub use words::s0_func;
pub use words::s1_func;
