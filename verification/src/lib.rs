//! A password-protected single-file vault.
//!
//! The vault lives on disk only as an encrypted container: a salt, a nonce, a
//! ciphertext and an authentication tag, written as a small text object with
//! base64 fields. This library holds the container and its text form, the
//! password-derived encryption around it, and the decisions behind the three
//! user operations (view, edit, change password) and behind the staging of
//! plaintext for an external editor. Reading passwords, touching files and
//! running processes are left to the caller, who is told what to do next and
//! reports back what happened.

pub mod error;
pub mod std_specs;
pub mod chars;
pub mod encoding;
pub mod kdf;
pub mod aead;
pub mod crypt;
pub mod text;
pub mod command;
pub mod editor;
pub mod cmdline;
pub mod vault;
