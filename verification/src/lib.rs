//! An append-only ledger of academic achievements: competences granted to
//! students and activities they attended, each record under an identifier
//! derived from its fields and a seed, with indices by student and by term
//! that are kept in step with the stores of records.

pub mod codec;
pub mod ident;
pub mod index;
pub mod laws;
pub mod ledger;
pub mod model;
pub mod store;
pub mod term;
pub mod types;
