//! Buffers for secrets, generators of nonces, and random bytes drawn
//! beforehand.

pub mod bytes;
pub mod coins;
pub mod nonce;
pub mod secbytes;

pub use self::bytes::Bytes;
pub use self::coins::Coins;
pub use self::nonce::{Counter, GenNonce, SystemRng};
pub use self::secbytes::SecBytes;
