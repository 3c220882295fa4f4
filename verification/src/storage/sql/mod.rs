//! The tables of the SQL block store: how its entities relate and how it
//! numbers block versions and transaction kinds.
pub mod entities;
pub mod rows;
