//! Identity and key lifecycle library: credential-based authentication with
//! opaque bearer tokens, password-based key derivation and stretching, key
//! rotation across generations, and authenticated symmetric encryption, plus
//! the small configuration, routing and utility helpers that surround them.

pub mod account;
pub mod aes_cbc;
pub mod auth;
pub mod bytes;
pub mod cipher;
pub mod config;
pub mod encoding;
pub mod error_handling;
pub mod errors;
pub mod hashing;
pub mod helpers;
pub mod kdf;
pub mod keygen;
pub mod logging;
pub mod parse;
pub mod recovery;
pub mod registration;
pub mod rng;
pub mod rotation;
pub mod routing;
pub mod session;
pub mod settings;
pub mod verification;
pub mod xorcipher;
