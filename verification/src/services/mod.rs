//! The operations on the store, one module per service.

pub mod admin_service;
pub mod auth_service;
pub mod course_service;
pub mod payment_service;
