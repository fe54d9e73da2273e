//! A builder for partial updates of a guild role.

pub mod document;
pub mod edit_role;
pub mod field;
pub mod laws;
pub mod model;
pub mod value;
