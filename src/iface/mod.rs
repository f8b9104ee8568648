//! The network interface: addressing state and the polling engine that
//! moves packets between a device and the sockets.

pub mod can_control;
pub mod interface;
pub mod socket_set;
pub mod vlcb_packet;
