//! A session-based authentication and authorization core.
//!
//! The library models the persistent state of an authentication service --
//! accounts, sessions and single-use invites -- as an in-memory store with a
//! proved well-formedness invariant, and implements the operations on it:
//! credential hashing and verification (through `argon2`), signin, signout,
//! session validation, role-gated invite issuance, invite-gated signup, and
//! sweeping of expired sessions.  Every operation carries a contract that
//! pins down its result and its effect on the store.

pub mod email;
pub mod invite;
pub mod laws;
pub mod password;
pub mod role;
pub mod signin;
pub mod signout;
pub mod signup;
pub mod store;
pub mod sweeper;
pub mod text;
pub mod token;
pub mod users;
pub mod validate;

pub use email::EmailAddress;
pub use invite::InviteRequest;
pub use role::UserRole;
pub use store::AuthDb;
