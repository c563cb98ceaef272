use vstd::prelude::*;
use crate::builder::{DeviceBuilder, InterfaceBuilder};
use crate::usb::{UsbCustomDescriptor, UsbEndpointDescriptor, UsbStringView};
use crate::EndpointInfo;

verus! {

/// Interface class code of a communications device.
pub const USB_CLASS_CDC: u8 = 0x02;

const USB_CLASS_DATA: u8 = 0x0a;

const CDC_SUBCLASS_ACM: u8 = 0x02;

const CDC_PROTOCOL_AT: u8 = 0x01;

const CS_INTERFACE: u8 = 0x24;

const CDC_TYPE_HEADER: u8 = 0x00;

const CDC_TYPE_CALL_MANAGEMENT: u8 = 0x01;

const CDC_TYPE_ACM: u8 = 0x02;

const CDC_TYPE_UNION: u8 = 0x06;

/// A custom descriptor as its type and payload.
pub open spec fn custom_view(c: UsbCustomDescriptor) -> (u8, Seq<u8>) {
    (c.descriptor_type, c.data@)
}

/// The class-specific descriptors of a serial-port communication interface
/// numbered `comm` whose data interface is `data`: header (CDC 1.10), call
/// management, abstract control management, union.
pub open spec fn cdc_functional_descriptors(comm: u8, data: u8) -> Seq<(u8, Seq<u8>)> {
    seq![
        (0x24u8, seq![0x00u8, 0x10, 0x01]),
        (0x24u8, seq![0x01u8, 0x00, data]),
        (0x24u8, seq![0x02u8, 0x00]),
        (0x24u8, seq![0x06u8, comm, data]),
    ]
}

/// Whether `i` is interface `n` with the given class codes, no string,
/// alternate setting 0, and the given attachments.
pub open spec fn interface_is(
    i: InterfaceBuilder,
    n: u8,
    class: u8,
    sub_class: u8,
    protocol: u8,
    customs: Seq<(u8, Seq<u8>)>,
    endpoints: Seq<UsbEndpointDescriptor>,
) -> bool {
    &&& i.descriptor.interface_number == n
    &&& i.descriptor.alternate_setting == 0
    &&& i.descriptor.interface_class == class
    &&& i.descriptor.interface_sub_class == sub_class
    &&& i.descriptor.interface_protocol == protocol
    &&& i.descriptor.interface_string@ == UsbStringView::Unset
    &&& i.custom_descriptors@.map_values(|c: UsbCustomDescriptor| custom_view(c)) == customs
    &&& i.endpoints@ == endpoints
}

/// Adds a serial port (CDC ACM) to the device: a communication interface
/// with its functional descriptors and the notification endpoint, then a
/// data interface with the write and read endpoints.
pub fn create_cdc_function<C: EndpointInfo, R: EndpointInfo, W: EndpointInfo>(
    device: &mut DeviceBuilder,
    comm_ep: C,
    read_ep: R,
    write_ep: W,
)
    requires
        old(device).interfaces@.len() < 254,
    ensures
        final(device).descriptor == old(device).descriptor,
        final(device).configuration_desc == old(device).configuration_desc,
        final(device).interfaces@.len() == old(device).interfaces@.len() + 2,
        final(device).interfaces@.take(old(device).interfaces@.len() as int) == old(
            device,
        ).interfaces@,
        interface_is(
            final(device).interfaces@[old(device).interfaces@.len() as int],
            old(device).interfaces@.len() as u8,
            0x02,
            0x02,
            0x01,
            cdc_functional_descriptors(
                old(device).interfaces@.len() as u8,
                (old(device).interfaces@.len() + 1) as u8,
            ),
            seq![comm_ep.endpoint_spec()],
        ),
        interface_is(
            final(device).interfaces@[old(device).interfaces@.len() + 1int],
            (old(device).interfaces@.len() + 1) as u8,
            0x0a,
            0,
            0,
            Seq::empty(),
            seq![write_ep.endpoint_spec(), read_ep.endpoint_spec()],
        ),
{
    let ghost n = old(device).interfaces@.len();
    let comm_if = device.alloc_interface();
    let data_if = device.alloc_interface();
    let comm_if_id = comm_if.descriptor.interface_number;
    let data_if_id = data_if.descriptor.interface_number;
    let ghost mid = device.interfaces@;
    let comm = comm_if.interface_class(USB_CLASS_CDC).interface_sub_class(
        CDC_SUBCLASS_ACM,
    ).interface_protocol(CDC_PROTOCOL_AT).descriptor(
        CS_INTERFACE,
        &[CDC_TYPE_HEADER, 0x10, 0x01],
    ).descriptor(CS_INTERFACE, &[CDC_TYPE_CALL_MANAGEMENT, 0x00, data_if_id]).descriptor(
        CS_INTERFACE,
        &[CDC_TYPE_ACM, 0x00],
    ).descriptor(CS_INTERFACE, &[CDC_TYPE_UNION, comm_if_id, data_if_id]).endpoint(
        *comm_ep.descriptor(),
    );
    proof {
        let cs = comm.custom_descriptors@;
        let v = cs.map_values(|c: UsbCustomDescriptor| custom_view(c));
        assert(cs.len() == 4);
        assert(v =~= cdc_functional_descriptors(n as u8, (n + 1) as u8));
        assert(comm.endpoints@ =~= seq![comm_ep.endpoint_spec()]);
        assert(interface_is(
            comm,
            n as u8,
            0x02,
            0x02,
            0x01,
            cdc_functional_descriptors(n as u8, (n + 1) as u8),
            seq![comm_ep.endpoint_spec()],
        ));
    }
    let ghost comm_spec = comm;
    let saved = comm.save(device);
    assert(saved is Ok);
    let data = data_if.interface_class(USB_CLASS_DATA).endpoint(*write_ep.descriptor()).endpoint(
        *read_ep.descriptor(),
    );
    proof {
        assert(data.custom_descriptors@.map_values(|c: UsbCustomDescriptor| custom_view(c))
            =~= Seq::<(u8, Seq<u8>)>::empty());
        assert(data.endpoints@ =~= seq![write_ep.endpoint_spec(), read_ep.endpoint_spec()]);
        assert(interface_is(
            data,
            (n + 1) as u8,
            0x0a,
            0,
            0,
            Seq::empty(),
            seq![write_ep.endpoint_spec(), read_ep.endpoint_spec()],
        ));
        assert(device.interfaces@[n as int] == comm_spec);
    }
    let ghost data_spec = data;
    let saved = data.save(device);
    assert(saved is Ok);
    proof {
        assert(device.interfaces@.take(n as int) =~= old(device).interfaces@);
        assert(device.interfaces@[n as int] == comm_spec);
        assert(device.interfaces@[n + 1int] == data_spec);
    }
}

} // verus!
