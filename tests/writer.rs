use usbgen::usb::{
    UsbConfigurationDescriptor, UsbCustomDescriptor, UsbDescriptorType, UsbDescriptorWriter,
    UsbDeviceDescriptor, UsbEndpointDescriptor, UsbInterfaceDescriptor, UsbString,
    UsbStringAllocator,
};

fn interface(n: u8) -> UsbInterfaceDescriptor {
    UsbInterfaceDescriptor {
        interface_number: n,
        alternate_setting: 0,
        interface_class: 0xff,
        interface_sub_class: 0,
        interface_protocol: 0,
        interface_string: UsbString::Unset,
    }
}

fn endpoint(address: u8) -> UsbEndpointDescriptor {
    UsbEndpointDescriptor { address, attributes: 2, max_packet_size: 0x0140, interval: 0 }
}

#[test]
fn write_prefixes_length_and_type() {
    let mut w = UsbDescriptorWriter::new();
    w.write(0x24, &[1, 2, 3]);
    assert_eq!(w.position(), 5);
    assert_eq!(w.finish(), vec![5, 0x24, 1, 2, 3]);
}

#[test]
fn write_empty_payload() {
    let mut w = UsbDescriptorWriter::new();
    w.write(7, &[]);
    assert_eq!(w.finish(), vec![2, 7]);
}

#[test]
fn descriptor_type_codes() {
    assert_eq!(UsbDescriptorType::Device.code(), 1);
    assert_eq!(UsbDescriptorType::Configuration.code(), 2);
    assert_eq!(UsbDescriptorType::String.code(), 3);
    assert_eq!(UsbDescriptorType::Interface.code(), 4);
    assert_eq!(UsbDescriptorType::Endpoint.code(), 5);
}

#[test]
fn device_descriptor_layout() {
    let mut table = UsbStringAllocator::new();
    let device = UsbDeviceDescriptor {
        device_class: 2,
        device_sub_class: 3,
        device_protocol: 4,
        max_packet_size_0: 64,
        vendor_id: 0x1234,
        product_id: 0xabcd,
        device_release: 0x0210,
        manufacturer: UsbString::Const(String::from("M")),
        product: UsbString::Const(String::from("P")),
        serial_number: UsbString::Unset,
    };
    table.intern(&device.manufacturer);
    table.intern(&device.product);
    let mut w = UsbDescriptorWriter::new();
    w.device(&device, 1, &table);
    assert_eq!(
        w.finish(),
        vec![18, 1, 0x00, 0x02, 2, 3, 4, 64, 0x34, 0x12, 0xcd, 0xab, 0x10, 0x02, 1, 2, 0, 1]
    );
}

#[test]
fn configuration_length_and_counts_are_backpatched() {
    let table = UsbStringAllocator::new();
    let conf = UsbConfigurationDescriptor {
        configuration_value: 1,
        configuration_string: UsbString::Unset,
        attributes: 0x80,
        max_power: 50,
    };
    let mut w = UsbDescriptorWriter::new();
    w.configuration(&conf, &table);
    w.interface(&interface(0), &table);
    w.custom_descriptor(&UsbCustomDescriptor { descriptor_type: 0x24, data: vec![6, 0, 1] });
    w.endpoint(&endpoint(0x81));
    w.endpoint(&endpoint(0x01));
    w.interface(&interface(1), &table);
    w.endpoint(&endpoint(0x82));
    let bytes = w.finish();
    let expected = vec![
        9, 2, 53, 0, 2, 1, 0, 0x80, 50, // configuration
        9, 4, 0, 0, 2, 0xff, 0, 0, 0, // interface 0, two endpoints
        5, 0x24, 6, 0, 1, // custom
        7, 5, 0x81, 2, 0x40, 0x01, 0, // endpoint
        7, 5, 0x01, 2, 0x40, 0x01, 0, // endpoint
        9, 4, 1, 0, 1, 0xff, 0, 0, 0, // interface 1, one endpoint
        7, 5, 0x82, 2, 0x40, 0x01, 0, // endpoint
    ];
    assert_eq!(bytes.len(), 53);
    assert_eq!(bytes, expected);
}

#[test]
fn second_configuration_closes_the_first() {
    let table = UsbStringAllocator::new();
    let conf = UsbConfigurationDescriptor {
        configuration_value: 1,
        configuration_string: UsbString::Unset,
        attributes: 0x80,
        max_power: 50,
    };
    let mut w = UsbDescriptorWriter::new();
    w.configuration(&conf, &table);
    w.interface(&interface(0), &table);
    w.configuration(&conf, &table);
    let bytes = w.finish();
    assert_eq!(bytes[2], 18);
    assert_eq!(bytes[4], 1);
    assert_eq!(bytes[18 + 2], 9);
    assert_eq!(bytes[18 + 4], 0);
}

#[test]
fn string_descriptor_is_utf16le() {
    let mut w = UsbDescriptorWriter::new();
    w.string("Hé€");
    assert_eq!(w.finish(), vec![8, 3, 0x48, 0x00, 0xe9, 0x00, 0xac, 0x20]);
}

#[test]
fn string_descriptor_uses_surrogate_pairs() {
    let mut w = UsbDescriptorWriter::new();
    w.string("\u{1F600}");
    assert_eq!(w.finish(), vec![6, 3, 0x3d, 0xd8, 0x00, 0xde]);
}

#[test]
fn empty_string_descriptor() {
    let mut w = UsbDescriptorWriter::new();
    w.string("");
    assert_eq!(w.finish(), vec![2, 3]);
}
