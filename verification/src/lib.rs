//! The decisions, formats and message handling of a small DHCPv4 client.

pub mod addr;
pub mod apply;
pub mod args;
pub mod arp;
pub mod dora;
pub mod lease;
pub mod lengths;
pub mod link;
pub mod message;
pub mod number;
pub mod reboot;
pub mod renew;
pub mod reply;
pub mod request;
pub mod session;
pub mod teardown;
pub mod text;
