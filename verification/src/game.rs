pub mod models;
pub mod rhythm;
