pub mod client;
pub mod config;
pub mod console;
pub mod document_laws;
pub mod executor;
pub mod guarantees;
pub mod instance;
pub mod json;
pub mod json_laws;
pub mod lifecycle;
pub mod logs;
pub mod naming;
pub mod process;
pub mod request_laws;
pub mod requests;
pub mod stats;
pub mod text;
pub mod text_laws;
pub mod throttle;
pub mod workflow;
