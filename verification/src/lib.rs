//! Save management for Nine Sols.
//!
//! The library decodes the encrypted metadata that the game keeps beside
//! each save, builds the three collections of saves (the game's four
//! slots, the external saves and the backups) from listings of their
//! directories, and plans the copying, overwriting and removing of saves
//! so that a backup is made before anything is lost.
//!
//! The library touches no file. Its host lists directories and reads
//! metadata files for it, and carries out the plans it makes: lists of
//! steps, each one operation of the file system. What the plans do is
//! proved on a model of the directories, in `protocol`.
//!
//! - `decryption`, `metadata`: from the text of a metadata file to the
//!   record it holds.
//! - `slot`, `scan`, `order`: from the listing of a directory to the saves
//!   in it.
//! - `save`, `repository`: a save, and the three collections.
//! - `plan`, `disk`, `protocol`: the plans, the model they are proved on,
//!   and their laws.
//! - `session`: what the user has picked, and the plan for it.
//! - `text`, `color`, `error`: paths and names, the colours of the
//!   interface, and the failures.

pub mod color;
pub mod decryption;
pub mod disk;
pub mod error;
pub mod metadata;
pub mod order;
pub mod plan;
pub mod protocol;
pub mod repository;
pub mod save;
pub mod scan;
pub mod session;
pub mod slot;
pub mod text;
