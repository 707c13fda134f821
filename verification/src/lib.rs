pub mod config;
pub mod monitor;
pub mod service_list;
pub mod service_manager;
pub mod system_info;
pub mod text;
pub mod tui;
pub mod wide;
