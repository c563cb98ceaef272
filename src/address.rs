use vstd::prelude::*;

verus! {

/// Direction of an endpoint, as seen from the host.
#[derive(Clone, Copy, Debug, PartialEq, Eq, Structural)]
pub enum UsbDirection {
    /// Host to device.
    Out,
    /// Device to host.
    In,
}

/// Transfer type of an endpoint.
#[derive(Clone, Copy, Debug, PartialEq, Eq, Structural)]
pub enum EndpointType {
    Control,
    Isochronous,
    Bulk,
    Interrupt,
}

/// The bmAttributes code of a transfer type.
pub open spec fn ep_type_code(t: EndpointType) -> u8 {
    match t {
        EndpointType::Control => 0,
        EndpointType::Isochronous => 1,
        EndpointType::Bulk => 2,
        EndpointType::Interrupt => 3,
    }
}

/// The transfer type that a bmAttributes code in `0..=3` stands for.
pub open spec fn ep_type_of_code(c: u8) -> EndpointType
    recommends
        c <= 3,
{
    if c == 0 {
        EndpointType::Control
    } else if c == 1 {
        EndpointType::Isochronous
    } else if c == 2 {
        EndpointType::Bulk
    } else {
        EndpointType::Interrupt
    }
}

/// The direction bit of an endpoint address byte.
pub open spec fn direction_bit(d: UsbDirection) -> u8 {
    match d {
        UsbDirection::Out => 0,
        UsbDirection::In => 0x80,
    }
}

impl EndpointType {
    /// The bmAttributes code of this transfer type.
    pub fn code(&self) -> (r: u8)
        ensures
            r == ep_type_code(*self),
    {
        match self {
            EndpointType::Control => 0,
            EndpointType::Isochronous => 1,
            EndpointType::Bulk => 2,
            EndpointType::Interrupt => 3,
        }
    }

    /// The transfer type of a bmAttributes code in `0..=3`.
    pub fn from_code(c: u8) -> (r: EndpointType)
        requires
            c <= 3,
        ensures
            r == ep_type_of_code(c),
            ep_type_code(r) == c,
    {
        if c == 0 {
            EndpointType::Control
        } else if c == 1 {
            EndpointType::Isochronous
        } else if c == 2 {
            EndpointType::Bulk
        } else {
            EndpointType::Interrupt
        }
    }
}

/// Relies on `usb_device::endpoint::EndpointAddress::from_parts` and its
/// conversion to `u8`: the address byte is the index or'ed with the
/// direction bit (0x80 for IN, 0 for OUT).
#[verifier::external_body]
pub(crate) fn address_from_parts(index: u8, dir: UsbDirection) -> (r: u8)
    ensures
        r == (index | direction_bit(dir)),
{
    let d = match dir {
        UsbDirection::Out => usb_device::UsbDirection::Out,
        UsbDirection::In => usb_device::UsbDirection::In,
    };
    u8::from(usb_device::endpoint::EndpointAddress::from_parts(index as usize, d))
}

/// Relies on `usb_device::endpoint::EndpointAddress::direction`: IN when
/// bit 7 of the address byte is set, else OUT.
#[verifier::external_body]
pub(crate) fn address_direction(addr: u8) -> (r: UsbDirection)
    ensures
        r == (if addr & 0x80 != 0 { UsbDirection::In } else { UsbDirection::Out }),
{
    match usb_device::endpoint::EndpointAddress::from(addr).direction() {
        usb_device::UsbDirection::Out => UsbDirection::Out,
        usb_device::UsbDirection::In => UsbDirection::In,
    }
}

} // verus!
