//! Early boot bring-up logic: address mapping, the table enumeration
//! protocol, framebuffer discovery and initialization, and the boot
//! state machine that ties them together.

pub mod mapper;
pub mod table;
pub mod framebuffer;
pub mod boot;
