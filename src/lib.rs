//! Network stack for a CAN-based model-railway control bus: node addressing,
//! the bit-packed frame and packet formats, bounded socket queues and the
//! polling engine that moves packets between a device and the sockets.

pub mod bits;
pub mod can;
pub mod phy;
pub mod wire;
pub mod storage;
pub mod socket;
pub mod cbus;
pub mod dcc;
pub mod fast_clock;
pub mod iface;
pub mod module;
pub mod ext;
