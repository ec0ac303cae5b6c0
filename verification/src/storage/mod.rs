//! What the store holds, as far as the rules of this crate read it.

pub mod repository;
pub mod schema;
