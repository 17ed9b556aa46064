//! Verified core of the Matrix application-service bridge: token generation,
//! bearer checks, request dispatch and serving, registration and event
//! delivery.
pub mod http;
pub mod matrix;
pub mod pipolog;
pub mod serve;
pub mod token;
pub mod transaction;
