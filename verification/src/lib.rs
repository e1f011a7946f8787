//! An in-process store for employee records: identifier allocation,
//! validation of candidate records, and CRUD operations whose contracts
//! are verified. A transport layer serializes access with one
//! readers-writer lock and maps each operation to a request path.

pub mod schema;
pub mod store;
pub mod validation;
