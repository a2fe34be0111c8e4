//! Password credentials: the hash-algorithm registry, the configured
//! hasher, and the versioned credential container with its textual
//! encoding.

pub mod hash;
pub mod password;

pub use self::password::Password;
pub use self::password::PasswordError;
pub use self::password::PasswordV1;
