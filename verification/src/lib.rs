//! Identity and membership records for a multi-tenant access-control backend:
//! an indexed membership store, a credential service, a token service and the
//! orchestration of registration, authentication and authorization.

pub mod auth;
pub mod clock;
pub mod contact;
pub mod email;
pub mod error;
pub mod id;
pub mod key;
pub mod member;
pub mod memory;
pub mod paseto;
pub mod password;
pub mod scope;
pub mod text;
pub mod token;
pub mod user;
pub mod value;
