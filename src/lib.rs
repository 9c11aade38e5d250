//! Decoding of "HG" scene containers: the cyclic-XOR de-obfuscation of the
//! container files and the block decoder for the plaintext they hold.

pub mod bin;
pub mod hg;
