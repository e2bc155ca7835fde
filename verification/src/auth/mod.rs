//! Sign-in: which URLs belong to the sign-in flow, and the session token.
pub mod domains;
pub mod token;
