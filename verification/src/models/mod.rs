//! The records that the store holds and the payloads that the services take.

pub mod admin;
pub mod course;
pub mod payment;
pub mod user;
