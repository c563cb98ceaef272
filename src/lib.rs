//! Build-time description of a USB device: descriptor bytes and the
//! placement of endpoint packet buffers in the peripheral's packet memory.

pub mod address;
pub mod builder;
pub mod cdc;
pub mod endpoint;
pub mod error;
pub mod usb;

pub use address::{EndpointType, UsbDirection};
pub use error::UsbGenError;

use vstd::prelude::*;
use address::{address_direction, ep_type_of_code};
use usb::UsbEndpointDescriptor;

verus! {

/// Anything that stands for one endpoint descriptor.
pub trait EndpointInfo {
    /// The endpoint descriptor this stands for.
    spec fn endpoint_spec(&self) -> UsbEndpointDescriptor;

    fn descriptor(&self) -> (r: &UsbEndpointDescriptor)
        ensures
            *r == self.endpoint_spec(),
    ;

    /// The bEndpointAddress byte.
    fn address(&self) -> (r: u8)
        ensures
            r == self.endpoint_spec().address,
    {
        self.descriptor().address
    }

    /// The transfer type, from the low two bits of bmAttributes (the other
    /// bits must be clear).
    fn ep_type(&self) -> (r: EndpointType)
        requires
            self.endpoint_spec().attributes <= 3,
        ensures
            r == ep_type_of_code(self.endpoint_spec().attributes),
    {
        EndpointType::from_code(self.descriptor().attributes)
    }

    /// The direction, from bit 7 of the address.
    fn direction(&self) -> (r: UsbDirection)
        ensures
            r == (if self.endpoint_spec().address & 0x80 != 0 {
                UsbDirection::In
            } else {
                UsbDirection::Out
            }),
    {
        address_direction(self.address())
    }
}

impl EndpointInfo for UsbEndpointDescriptor {
    open spec fn endpoint_spec(&self) -> UsbEndpointDescriptor {
        *self
    }

    fn descriptor(&self) -> (r: &UsbEndpointDescriptor) {
        self
    }
}

} // verus!
