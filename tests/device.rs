use usbgen::builder::{DeviceBuilder, EndpointBuilder, UsbVidPid};
use usbgen::cdc::{create_cdc_function, USB_CLASS_CDC};
use usbgen::endpoint::DeviceAllocator;
use usbgen::usb::{UsbEndpointDescriptor, UsbString};
use usbgen::{EndpointInfo, EndpointType, UsbDirection, UsbGenError};

fn ep(t: EndpointType, d: UsbDirection, mps: u16) -> EndpointBuilder {
    EndpointBuilder::new().ep_type(t).direction(d).max_packet_size(mps)
}

#[test]
fn keyboard_and_bulk_pair_scenario() {
    let mut alloc = DeviceAllocator::new();
    let mut device = DeviceBuilder::new(UsbVidPid(0x16c0, 0x05dc)).allocate(&mut alloc).unwrap();
    let int_in = ep(EndpointType::Interrupt, UsbDirection::In, 8).allocate(&mut alloc).unwrap();
    let bulk_out = ep(EndpointType::Bulk, UsbDirection::Out, 64).allocate(&mut alloc).unwrap();
    let bulk_in = ep(EndpointType::Bulk, UsbDirection::In, 64).allocate(&mut alloc).unwrap();
    let first = device.alloc_interface();
    first.endpoint(*int_in.descriptor()).save(&mut device).unwrap();
    let second = device.alloc_interface();
    second
        .endpoint(*bulk_out.descriptor())
        .endpoint(*bulk_in.descriptor())
        .save(&mut device)
        .unwrap();
    let config = device.build().ok().unwrap();
    let c = &config.configuration_descriptor;
    assert_eq!(c.len(), 48);
    assert_eq!(c.len(), 9 + 9 + 7 + 9 + 7 + 7);
    assert_eq!(c[2] as usize + 256 * c[3] as usize, 48);
    assert_eq!(c[4], 2);
    assert_eq!(c[9 + 4], 1);
    assert_eq!(c[9 + 9 + 7 + 4], 2);
    assert_eq!(config.endpoints.len(), 5);
    let addresses: Vec<u8> = config.endpoints.iter().map(|e| e.address).collect();
    assert_eq!(addresses, vec![0x00, 0x80, 0x81, 0x02, 0x82]);
    assert_eq!(config.endpoints[0].attributes, 0);
    assert_eq!(config.endpoints[2].attributes, 3);
    assert_eq!(config.endpoints[3].attributes, 2);
    assert_eq!(config.endpoints[0].max_packet_size, 8);
}

#[test]
fn device_descriptor_and_strings() {
    let device = DeviceBuilder::new(UsbVidPid(0x1234, 0x5678))
        .manufacturer("ACME")
        .product("Gadget")
        .serial_number("ACME")
        .configuration("Default");
    let mut device = device;
    device.alloc_interface().endpoint(UsbEndpointDescriptor {
        address: 0x81,
        attributes: 3,
        max_packet_size: 8,
        interval: 10,
    }).save(&mut device).unwrap();
    let config = device.build().ok().unwrap();
    assert_eq!(
        config.device_descriptor,
        vec![18, 1, 0x00, 0x02, 0, 0, 0, 8, 0x34, 0x12, 0x78, 0x56, 0x10, 0x00, 1, 2, 1, 1]
    );
    assert_eq!(config.configuration_descriptor[6], 3);
    assert_eq!(config.string_descriptors.len(), 4);
    assert_eq!(config.string_descriptors[&0], vec![4, 3, 0x09, 0x04]);
    assert_eq!(config.string_descriptors[&1], vec![10, 3, b'A', 0, b'C', 0, b'M', 0, b'E', 0]);
    assert_eq!(config.string_descriptors[&2].len(), 14);
    assert_eq!(config.string_descriptors[&3].len(), 16);
    assert!(config.custom_strings.is_empty());
}

#[test]
fn custom_strings_are_listed_not_written() {
    let mut device = DeviceBuilder::new(UsbVidPid(1, 2));
    device.descriptor.serial_number = UsbString::Custom(42);
    device.alloc_interface().endpoint(UsbEndpointDescriptor {
        address: 0x81,
        attributes: 2,
        max_packet_size: 64,
        interval: 0,
    }).save(&mut device).unwrap();
    let config = device.build().ok().unwrap();
    assert_eq!(config.custom_strings.len(), 1);
    assert_eq!(config.custom_strings[&1], 42);
    assert!(!config.string_descriptors.contains_key(&1));
    assert_eq!(config.device_descriptor[16], 1);
}

#[test]
fn build_without_interfaces_fails() {
    let device = DeviceBuilder::new(UsbVidPid(1, 2));
    assert!(matches!(device.build(), Err(UsbGenError::Configuration)));
}

#[test]
fn build_with_unsaved_interface_fails() {
    let mut device = DeviceBuilder::new(UsbVidPid(1, 2));
    let _unsaved = device.alloc_interface();
    assert!(matches!(device.build(), Err(UsbGenError::Configuration)));
}

#[test]
fn save_refuses_interface_without_endpoints() {
    let mut device = DeviceBuilder::new(UsbVidPid(1, 2));
    let iface = device.alloc_interface();
    assert_eq!(iface.save(&mut device), Err(UsbGenError::Configuration));
}

#[test]
fn save_refuses_alternate_setting() {
    let mut device = DeviceBuilder::new(UsbVidPid(1, 2));
    let iface = device.alloc_interface().alternate_setting(1).endpoint(UsbEndpointDescriptor {
        address: 0x81,
        attributes: 2,
        max_packet_size: 64,
        interval: 0,
    });
    assert_eq!(iface.save(&mut device), Err(UsbGenError::Configuration));
}

#[test]
fn control_packet_size_must_be_valid() {
    for size in [8u8, 16, 32, 64] {
        let d = DeviceBuilder::new(UsbVidPid(1, 2)).max_packet_size_0(size).ok().unwrap();
        assert_eq!(d.descriptor.max_packet_size_0, size);
    }
    for size in [0u8, 7, 9, 63, 128, 255] {
        let d = DeviceBuilder::new(UsbVidPid(1, 2)).max_packet_size_0(size);
        assert!(matches!(d, Err(UsbGenError::Configuration)));
    }
}

#[test]
fn max_power_is_in_2ma_units_up_to_500() {
    let d = DeviceBuilder::new(UsbVidPid(1, 2)).max_power(500).ok().unwrap();
    assert_eq!(d.configuration_desc.max_power, 250);
    let d = DeviceBuilder::new(UsbVidPid(1, 2)).max_power(0).ok().unwrap();
    assert_eq!(d.configuration_desc.max_power, 0);
    let d = DeviceBuilder::new(UsbVidPid(1, 2)).max_power(501);
    assert!(matches!(d, Err(UsbGenError::Configuration)));
}

#[test]
fn power_attribute_bits() {
    let d = DeviceBuilder::new(UsbVidPid(1, 2));
    assert_eq!(d.configuration_desc.attributes, 0x80);
    let d = d.self_powered(true);
    assert_eq!(d.configuration_desc.attributes, 0xc0);
    let d = d.supports_remote_wakeup(true);
    assert_eq!(d.configuration_desc.attributes, 0xe0);
    let d = d.self_powered(false);
    assert_eq!(d.configuration_desc.attributes, 0xa0);
}

#[test]
fn device_defaults_and_setters() {
    let d = DeviceBuilder::new(UsbVidPid(0xaaaa, 0xbbbb))
        .device_class(0xff)
        .device_sub_class(1)
        .device_protocol(2)
        .device_release(0x0123);
    assert_eq!(d.descriptor.device_class, 0xff);
    assert_eq!(d.descriptor.device_sub_class, 1);
    assert_eq!(d.descriptor.device_protocol, 2);
    assert_eq!(d.descriptor.device_release, 0x0123);
    assert_eq!(d.descriptor.vendor_id, 0xaaaa);
    assert_eq!(d.descriptor.product_id, 0xbbbb);
    assert_eq!(d.configuration_desc.configuration_value, 1);
    assert_eq!(d.configuration_desc.max_power, 50);
}

#[test]
fn endpoint_builder_builds_descriptor() {
    let d = EndpointBuilder::new()
        .number(3)
        .direction(UsbDirection::In)
        .ep_type(EndpointType::Interrupt)
        .max_packet_size(16)
        .interval(5)
        .build();
    assert_eq!(d, UsbEndpointDescriptor { address: 0x83, attributes: 3, max_packet_size: 16, interval: 5 });
    assert_eq!(d.direction(), UsbDirection::In);
    assert_eq!(d.ep_type(), EndpointType::Interrupt);
    let o = EndpointBuilder::new()
        .number(2)
        .direction(UsbDirection::Out)
        .ep_type(EndpointType::Isochronous)
        .max_packet_size(16)
        .build();
    assert_eq!(o.address, 0x02);
    assert_eq!(o.direction(), UsbDirection::Out);
    assert_eq!(o.ep_type(), EndpointType::Isochronous);
}

#[test]
fn cdc_function_adds_two_interfaces() {
    let mut alloc = DeviceAllocator::new();
    let mut device = DeviceBuilder::new(UsbVidPid(0x16c0, 0x27dd)).allocate(&mut alloc).unwrap();
    let comm = ep(EndpointType::Interrupt, UsbDirection::In, 8).allocate(&mut alloc).unwrap();
    let read = ep(EndpointType::Bulk, UsbDirection::Out, 64).allocate(&mut alloc).unwrap();
    let write = ep(EndpointType::Bulk, UsbDirection::In, 64).allocate(&mut alloc).unwrap();
    create_cdc_function(&mut device, comm, read, write);
    assert_eq!(device.interfaces.len(), 2);
    assert_eq!(device.interfaces[0].descriptor.interface_class, USB_CLASS_CDC);
    assert_eq!(device.interfaces[0].custom_descriptors.len(), 4);
    assert_eq!(device.interfaces[0].custom_descriptors[3].data, vec![0x06, 0, 1]);
    assert_eq!(device.interfaces[1].descriptor.interface_class, 0x0a);
    assert_eq!(device.interfaces[1].endpoints[0].address, 0x82);
    assert_eq!(device.interfaces[1].endpoints[1].address, 0x02);
    let config = device.build().ok().unwrap();
    let c = &config.configuration_descriptor;
    let expected_len = 9 + (9 + 5 + 5 + 4 + 5 + 7) + (9 + 7 + 7);
    assert_eq!(c.len(), expected_len);
    assert_eq!(c[2] as usize, expected_len);
    assert_eq!(c[4], 2);
    assert_eq!(&c[9..18], &[9, 4, 0, 0, 1, 0x02, 0x02, 0x01, 0]);
    assert_eq!(&c[18..23], &[5, 0x24, 0x00, 0x10, 0x01]);
}

fn bulk(address: u8) -> UsbEndpointDescriptor {
    UsbEndpointDescriptor { address, attributes: 2, max_packet_size: 64, interval: 0 }
}

#[test]
fn build_refuses_custom_descriptor_over_253_bytes() {
    let mut device = DeviceBuilder::new(UsbVidPid(1, 2));
    device.alloc_interface().descriptor(0x24, &[0u8; 254]).endpoint(bulk(0x81)).save(&mut device).unwrap();
    assert!(matches!(device.build(), Err(UsbGenError::Configuration)));
    let mut device = DeviceBuilder::new(UsbVidPid(1, 2));
    device.alloc_interface().descriptor(0x24, &[0u8; 253]).endpoint(bulk(0x81)).save(&mut device).unwrap();
    let config = device.build().ok().unwrap();
    assert_eq!(config.configuration_descriptor[18], 255);
}

#[test]
fn build_refuses_string_over_126_units() {
    let long: String = std::iter::repeat('x').take(127).collect();
    let mut device = DeviceBuilder::new(UsbVidPid(1, 2)).product(&long);
    device.alloc_interface().endpoint(bulk(0x81)).save(&mut device).unwrap();
    assert!(matches!(device.build(), Err(UsbGenError::Configuration)));
    let fits: String = std::iter::repeat('x').take(126).collect();
    let mut device = DeviceBuilder::new(UsbVidPid(1, 2)).product(&fits);
    device.alloc_interface().endpoint(bulk(0x81)).save(&mut device).unwrap();
    let config = device.build().ok().unwrap();
    assert_eq!(config.string_descriptors[&1][0], 254);
}

#[test]
fn build_refuses_configuration_over_65535_bytes() {
    let mut device = DeviceBuilder::new(UsbVidPid(1, 2));
    for _ in 0..250 {
        device.alloc_interface().descriptor(0xff, &[0u8; 253]).endpoint(bulk(0x81)).save(&mut device).unwrap();
    }
    assert!(matches!(device.build(), Err(UsbGenError::Configuration)));
    let mut device = DeviceBuilder::new(UsbVidPid(1, 2));
    for _ in 0..200 {
        device.alloc_interface().descriptor(0xff, &[0u8; 253]).endpoint(bulk(0x81)).save(&mut device).unwrap();
    }
    let config = device.build().ok().unwrap();
    let c = &config.configuration_descriptor;
    assert_eq!(c.len(), 9 + 200 * (9 + 255 + 7));
    assert_eq!(c[2] as usize + 256 * c[3] as usize, c.len());
    assert_eq!(c[4], 200);
}

fn device_with_named_interfaces(count: usize) -> DeviceBuilder {
    let mut device = DeviceBuilder::new(UsbVidPid(1, 2))
        .manufacturer("M")
        .product("P")
        .serial_number("S")
        .configuration("C");
    for i in 0..count {
        let mut iface = device.alloc_interface().endpoint(bulk(0x81));
        iface.descriptor.interface_string = UsbString::Const(format!("interface {}", i));
        iface.save(&mut device).unwrap();
    }
    device
}

#[test]
fn build_takes_255_interfaces() {
    let mut device = DeviceBuilder::new(UsbVidPid(1, 2));
    for _ in 0..255 {
        device.alloc_interface().endpoint(bulk(0x81)).save(&mut device).unwrap();
    }
    let config = device.build().ok().unwrap();
    assert_eq!(config.configuration_descriptor[4], 255);
}

#[test]
fn build_refuses_more_than_256_strings() {
    assert!(device_with_named_interfaces(251).build().is_ok());
    assert!(matches!(device_with_named_interfaces(252).build(), Err(UsbGenError::Configuration)));
}
