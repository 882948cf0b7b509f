//! A verified core for a vendoring dependency manager: semantic-version
//! resolution, repository synchronization plans, vendor-tree discovery and
//! the reconciliation workflows that keep a manifest, a lock record and a
//! vendor directory consistent.

pub mod version;
pub mod parse;
pub mod constraint;
pub mod resolver;
pub mod package;
pub mod strutil;
pub mod workflow;
pub mod scanner;
pub mod paths;
pub mod gitio;
pub mod sync;
pub mod logger;
pub mod listing;
pub mod prompt;
