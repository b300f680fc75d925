//! A transparent scdaemon proxy's verified core: it tells when a YubiKey waits
//! for a touch, and plans the configuration changes that install the proxy.
pub mod text;
pub mod sound;
pub mod config;
pub mod setup;
pub mod event;
pub mod proxy;
pub mod alert;
pub mod cli;
