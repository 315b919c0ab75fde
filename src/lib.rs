//! ChaCha20Poly1305 and XChaCha20Poly1305 authenticated encryption, with the
//! composition of stream cipher and one-time MAC proved against a model.

mod primitives;

pub mod chacha20poly1305;
pub mod cipher;
pub mod laws;
pub mod model;
pub mod stream;
pub mod xchacha20poly1305;

pub use crate::chacha20poly1305::ChaCha20Poly1305;
pub use crate::cipher::Error;
pub use crate::xchacha20poly1305::XChaCha20Poly1305;
