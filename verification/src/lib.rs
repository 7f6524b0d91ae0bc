pub mod config;
pub mod encoding;
pub mod error;
pub mod exchange;
pub mod json;
pub mod mcpclient;
pub mod oauth;
pub mod session;
pub mod site;
pub mod text;
pub mod time;
pub mod transport;
pub mod urls;
pub mod webauthn;
