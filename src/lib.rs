//! Core of an embeddable SQL query engine: logical planning from a SQL
//! syntax tree, projection push-down, and the decisions of the pull-based
//! physical operators.

pub mod datatypes;
pub mod error;
pub mod logical;
pub mod sql;
pub mod catalog;
pub mod planner;
pub mod optimizer;
pub mod physical;
pub mod display;
