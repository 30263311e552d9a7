pub mod services;
pub mod unit_manager;
