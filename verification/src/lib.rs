pub mod text;
pub mod json;
pub mod paths;
pub mod config;
pub mod system;
pub mod files;
pub mod decoder;
pub mod upload;
pub mod webserver;
