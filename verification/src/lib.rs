pub mod views;
pub mod text;
pub mod num;
pub mod assoc;
pub mod json;
pub mod clock;
pub mod ipc;
pub mod config;
pub mod collector;
pub mod db;
pub mod lock;
pub mod server;
