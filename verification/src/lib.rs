//! A verifiable query library: SQL-style group-by queries over committed
//! column data, where a prover evaluates the query against the raw columns
//! and a verifier checks the claimed result table against column
//! commitments alone, accepting or rejecting without trusting the prover.

pub mod commitment;
pub mod database;
pub mod identifier;
pub mod group_by_expr;
pub mod intermediate_ast;
pub mod accessor;
pub mod owned_accessor;
pub mod owned_table_utility;
pub mod provable_expr;
pub mod query_proof;
pub mod query_utility;
pub mod scalar;
pub mod test_utility;
