pub mod app;
pub mod bot;
pub mod cli;
pub mod config;
pub mod i18n;
pub mod ini;
pub mod keyed;
pub mod logging;
pub mod oci;
pub mod signing;
pub mod text;
