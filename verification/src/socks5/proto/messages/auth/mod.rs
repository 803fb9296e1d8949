//! Method-specific sub-negotiations.

pub mod username_password;
