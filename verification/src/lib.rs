//! Windows Hello sign-in for WSL: the decisions of the PAM module and of the Windows bridge.

pub mod auth;
pub mod auth_laws;
pub mod bridge;
pub mod challenge;
pub mod config;
pub mod error;
pub mod pem;
pub mod signature;
pub mod text;
