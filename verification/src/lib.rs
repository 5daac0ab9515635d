//! Keeps a local directory of plugin archives in step with a remote manifest.
//!
//! The library holds the rules of a synchronisation run: which directory
//! entries count as installed plugins ([`scan`]), how the reply of the
//! service is read ([`manifest`]), which files are missing ([`reconcile`]),
//! how many downloads run at once ([`pool`]), and how each file is downloaded
//! and put in place ([`download`], [`names`]).
//!
//! Everything that touches the disk or the network is left to the caller,
//! which reports what happened and is told what to do next. What the library
//! decides is proved against the contracts that its functions state; the
//! proof functions named `lemma_..` state what holds of a run as a whole.

pub mod download;
pub mod endpoint;
pub mod inventory;
pub mod json;
pub mod manifest;
pub mod names;
pub mod pool;
pub mod reconcile;
pub mod scan;
pub mod text;
