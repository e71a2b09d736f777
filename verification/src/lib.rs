//! Spark's `regexp_extract` over `arrow` columns, on the regular expressions of the `regex` crate.
//!
//! [`spark_regexp_extract`] takes a column of subjects, a column of patterns and, optionally, a column
//! of group indexes, and gives for each row the text of that group in the first match.
//! [`SparkRegexpExtract`] describes the function to a query engine, and takes the values that the engine
//! hands over.

pub mod builder;
pub mod call_laws;
pub mod column;
pub mod error;
pub mod extract;
pub mod function;
pub mod invoke;
pub mod laws;
pub mod part_laws;
pub mod pattern;
pub mod text;
pub mod value_laws;

pub use crate::column::Column;
pub use crate::error::RegexpExtractError;
pub use crate::extract::{spark_regexp_extract, try_spark_regexp_extract};
pub use crate::function::SparkRegexpExtract;
