pub mod service;
pub mod traffic;
pub mod table;
