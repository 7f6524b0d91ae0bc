//! The site itself: hosts, static files, pages and certificates.
pub mod certs;
pub mod hosts;
pub mod links;
pub mod pages;
pub mod statics;
