//! A stand-in OAuth2 identity provider for integration tests.
//!
//! The library derives, from a fixed directory of fictitious users, a
//! one-to-one correspondence between every login and an authorization
//! code, an access token and a refresh token, and answers the three
//! protocol questions of the authorization-code grant: whether an
//! authorize request is valid and for whom, whether a code redeems for
//! tokens, and which subject a bearer token identifies.

pub mod configuration;
pub mod credentials;
pub mod flow;
pub mod urls;
