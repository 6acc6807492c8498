//! SQL text: parsing into syntax trees, rewriting, and printing.
pub mod alias;
pub mod ast;
pub mod calling;
pub mod calls;
pub mod casting;
pub mod casts;
pub mod clauses;
pub mod columns;
pub mod cte;
pub mod decorrelated;
pub mod group_by;
pub mod joined;
pub mod lateral;
pub mod laws;
pub mod lifted;
pub mod lifting;
pub mod meaning;
pub mod naming;
pub mod parse;
pub mod pipeline;
pub mod predicates;
pub mod regproc;
pub mod restoring;
pub mod rewrite;
pub mod srf;
pub mod subqueries;
pub mod tables;
pub mod throughout;
pub mod tree;
pub mod unnested;
pub mod walk;
