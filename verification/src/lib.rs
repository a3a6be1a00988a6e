//! Extraction of URL/path pairs from a line-oriented SQL dump of one table.
//!
//! The library reassembles logical SQL statements from a stream of physical
//! lines, resolves the positions of the two target columns from the table's
//! `CREATE TABLE` statement, and extracts a pair of string values from every
//! row of each `INSERT` statement, reporting every per-statement failure as
//! an error value in the same result stream.

pub mod extract;
pub mod laws;
pub mod scan;
pub mod statement;
pub mod url;
