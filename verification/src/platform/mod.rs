//! Desktop integration: CA material, trust stores, process control, login startup, and
//! system-proxy settings. This layer plans commands and renders files; performing them is left
//! to the caller.
pub mod error;
pub mod startup;
pub mod system_proxy;
pub mod proxy_linux;
pub mod proxy_windows;
pub mod proxy_macos;
pub mod ca;
pub mod process;
pub mod output;
