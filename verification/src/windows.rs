pub mod scm;
pub mod win32_api_services;
pub mod win_service_manager;
