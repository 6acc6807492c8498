//! PostgreSQL catalog emulation: the rules that make a SQL engine answer
//! `pg_catalog` queries the way PostgreSQL does.
use vstd::prelude::*;

pub mod args;
pub mod binary;
pub mod bytes;
pub mod catalog;
pub mod correlated;
pub mod datatype;
pub mod resolvers;
pub mod router;
pub mod routes;
pub mod scans;
pub mod server;
pub mod sorted;
pub mod sql;
pub mod sqlite;
pub mod text;

verus! {

} // verus!
