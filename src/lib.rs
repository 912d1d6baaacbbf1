//! Read-only access to customer accounts and their movements: query
//! building with bound parameters, row mapping, and the sort, top-N,
//! balance and detail aggregations over movement rows.

pub mod models;
pub mod query;
pub mod rows;
pub mod aggregate;
pub mod handlers;
pub mod reply;
