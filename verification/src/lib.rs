//! The status-notification message of the ostrich control protocol, its
//! protobuf wire encoding, and the decisions that set up a TUN inbound and a
//! Windows route.

pub mod notification;
pub mod route;
pub mod runtime;
pub mod tun_inbound;
pub mod unknown;
pub mod wire;

pub use notification::StatusNotification;
