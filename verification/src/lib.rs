//! Discovery and normalization of the packages ("crates") that a corpus
//! pipeline later builds: a canonical record type, list sources that
//! produce records, repository identity derivation, and the policy that
//! decides which sources run and in what order.

pub mod errors;
pub mod github;
pub mod record;
pub mod text;
pub mod update;
