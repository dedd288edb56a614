pub mod copy;
pub mod document;
pub mod icons;
pub mod laws;
pub mod persist;
pub mod retry;
pub mod service;
