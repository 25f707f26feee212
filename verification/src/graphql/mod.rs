pub mod drift_user;
pub mod request;
pub mod response;
