//! Who may call the node's API: authenticating a request's token and
//! checking a user's permissions.
pub mod interceptors;
pub mod permissions;
