pub mod auth;
pub mod commands;
pub mod dispatch;
pub mod ectf_params;
pub mod error;
pub mod flash;
pub mod hex;
pub mod host_msg;
pub mod security;
