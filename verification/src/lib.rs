//! In-memory store for a small course-enrollment service: users, courses,
//! payments, identifier sequences and the views derived from them.

pub mod models;
pub mod providers;
pub mod services;
pub mod state;
pub mod text;
pub mod utils;
