pub mod config;
pub mod decimal;
pub mod load_balancer;
