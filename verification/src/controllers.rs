//! The data the HTTP controllers hand this core and the answers they
//! get back: login form classification and outcome, and page actions.
//! The handlers themselves do I/O and live outside the library.

pub mod login;
pub mod page;
