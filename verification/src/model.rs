//! The stored entities this core decides the contents of: wiki pages
//! and login sessions. Persistence itself belongs to the external
//! stores.

pub mod page;
pub mod session;
