pub mod text;
pub mod net;
pub mod func;
pub mod config;
pub mod filer_service;
pub mod database;
pub mod server;
pub mod utils;
pub mod laws;
pub mod list_laws;
