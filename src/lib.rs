pub mod delivery;
pub mod error;
pub mod notification;
pub mod notifier;
pub mod request;
pub mod scope;
pub mod service;
pub mod subscription;
