pub mod auction;
pub mod chain;
pub mod service;
