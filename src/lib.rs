//! Composable, typed SQL SELECT statements: clauses, joins with nullability
//! propagation, and rendering to SQL text with ordered bind parameters.

pub mod clause;
pub mod expression;
pub mod offset_clause;
pub mod query;
pub mod query_builder;
pub mod select_clause;
pub mod source;
pub mod types;
