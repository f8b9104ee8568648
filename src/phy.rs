//! The boundary to a physical or simulated bus.

use vstd::prelude::*;

verus! {

/// Transport medium of a device.
#[derive(Debug, Clone, Copy, PartialEq, Eq)]
pub enum Medium {
    /// A CAN bus: devices send and receive CAN frames.
    CAN,
}

impl Default for Medium {
    fn default() -> (r: Medium)
        ensures
            r == Medium::CAN,
    {
        Medium::CAN
    }
}

/// What a device supports; captured once when an interface is built.
#[derive(Debug, Clone, Copy, PartialEq, Eq)]
pub struct DeviceCapabilities {
    /// Medium of the device.
    pub medium: Medium,
}

impl Default for DeviceCapabilities {
    fn default() -> (r: DeviceCapabilities)
        ensures
            r.medium == Medium::CAN,
    {
        DeviceCapabilities { medium: Medium::CAN }
    }
}

/// A device that hands over received frames and sends frames.
///
/// Each received frame is handed over by value, and each frame to send is
/// handed over as a byte buffer for the duration of one call, so no buffer
/// of the device outlives the call that lent it. Every frame buffer is a
/// two-octet header followed by up to eight octets of payload.
pub trait Device {
    /// Frames waiting to be received, oldest first.
    ///
    /// A device written in plain Rust cannot state this and inherits the
    /// empty default, which its frames contradict; for such a device the
    /// contracts below are its implementer's promise about the frames that
    /// really wait, not about this default.
    closed spec fn rx_pending(&self) -> Seq<Seq<u8>> {
        Seq::empty()
    }

    /// Every frame offered to `transmit` so far, oldest first, each with
    /// whether the device took it. The default, like that of `rx_pending`,
    /// stands only for devices written in plain Rust.
    closed spec fn tx_history(&self) -> Seq<(Seq<u8>, bool)> {
        Seq::empty()
    }

    /// What the device supports, as `capabilities` reports it.
    closed spec fn caps(&self) -> DeviceCapabilities {
        DeviceCapabilities { medium: Medium::CAN }
    }

    /// The oldest waiting frame, or `None` when nothing waits.
    fn receive(&mut self) -> (r: Option<Vec<u8>>)
        ensures
            r is None <==> old(self).rx_pending().len() == 0,
            r matches Some(f) ==> f@ == old(self).rx_pending()[0],
            r is Some ==> final(self).rx_pending() == old(self).rx_pending().subrange(
                1,
                old(self).rx_pending().len() as int,
            ),
            r is None ==> final(self).rx_pending() == old(self).rx_pending(),
            final(self).tx_history() == old(self).tx_history(),
            final(self).caps() == old(self).caps(),
    ;

    /// Offer a frame for sending; `false` when the device has no room to
    /// send right now. Sending never makes new frames arrive.
    fn transmit(&mut self, frame: &[u8]) -> (sent: bool)
        ensures
            final(self).tx_history() == old(self).tx_history().push((frame@, sent)),
            final(self).rx_pending() == old(self).rx_pending(),
            final(self).caps() == old(self).caps(),
    ;

    /// What the device supports.
    fn capabilities(&self) -> (r: DeviceCapabilities)
        ensures
            r == self.caps(),
    ;
}

} // verus!
