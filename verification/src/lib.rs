//! Content-addressed safety copies for a small file service, together with the
//! rules the service applies when it lists, serves and mutates files.
//!
//! Before a file is deleted or renamed, the backup engine in [`backup`] sees to
//! it that a copy of its content lies in a hidden directory beside it, once for
//! each content: [`digest`] hashes the content, [`index`] reads the list of the
//! hashes already kept, and [`naming`] names the copy. [`sidecar`] states what
//! a backup leaves behind, and proves it. [`listing`], [`media`] and
//! [`service`] hold the rules of the service around the engine.
//!
//! Nothing in this crate touches the file system or the network. The engine
//! and the service say what is to be done and are told how it went.

pub mod text;
pub mod hex;
pub mod digest;
pub mod index;
pub mod naming;
pub mod backup;
pub mod sidecar;
pub mod media;
pub mod listing;
pub mod service;
