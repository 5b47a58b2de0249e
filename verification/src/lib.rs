pub mod text;
pub mod decimal;
pub mod wide;
pub mod scan;
pub mod engine;
pub mod config;
pub mod launcher;
pub mod fps;
pub mod installer;
pub mod rpc;
