use usbgen::builder::{DeviceBuilder, EndpointBuilder, UsbVidPid};
use usbgen::endpoint::{
    calculate_count_rx, DeviceAllocator, EndpointMemoryAllocation, TargetDeviceConfiguration,
};
use usbgen::{EndpointInfo, EndpointType, UsbDirection, UsbGenError};

fn ep(t: EndpointType, d: UsbDirection, mps: u16) -> EndpointBuilder {
    EndpointBuilder::new().ep_type(t).direction(d).max_packet_size(mps)
}

#[test]
fn rx_size_class_small_sizes() {
    assert_eq!(calculate_count_rx(1), Ok((2, 0x0400)));
    assert_eq!(calculate_count_rx(0), Ok((0, 0)));
    assert_eq!(calculate_count_rx(8), Ok((8, 0x1000)));
    assert_eq!(calculate_count_rx(62), Ok((62, 0x7c00)));
}

#[test]
fn rx_size_class_large_sizes() {
    assert_eq!(calculate_count_rx(64), Ok((64, 0x8400)));
    assert_eq!(calculate_count_rx(63), Ok((64, 0x8400)));
    assert_eq!(calculate_count_rx(100), Ok((128, 0x8c00)));
    assert_eq!(calculate_count_rx(1024), Ok((1024, 0xfc00)));
}

#[test]
fn rx_size_class_rejects_above_1024() {
    assert_eq!(calculate_count_rx(1025), Err(UsbGenError::Configuration));
    assert_eq!(calculate_count_rx(u16::MAX), Err(UsbGenError::Configuration));
}

#[test]
fn control_endpoint_takes_address_zero_and_both_directions() {
    let mut alloc = DeviceAllocator::new();
    let device = DeviceBuilder::new(UsbVidPid(1, 2));
    let _device = device.allocate(&mut alloc).unwrap();
    assert_eq!(alloc.slot_count(), 1);
    let slot = alloc.slot(0);
    assert_eq!(slot.address_index, 0);
    assert_eq!(slot.ep_type, EndpointType::Control);
    assert!(slot.tx_enabled && slot.rx_enabled && !slot.double_buffered);
    assert_eq!(slot.buffer_descriptor, EndpointMemoryAllocation { address: 0, size: 8 });
    assert_eq!(slot.buffer0, Some(EndpointMemoryAllocation { address: 504, size: 8 }));
    assert_eq!(slot.buffer1, Some(EndpointMemoryAllocation { address: 496, size: 8 }));
    assert_eq!(alloc.start_address(), 8);
    assert_eq!(alloc.end_address(), 496);
}

#[test]
fn control_endpoint_twice_fails() {
    let mut alloc = DeviceAllocator::new();
    assert_eq!(alloc.allocate_control_endpoint(8), Ok(()));
    assert_eq!(alloc.allocate_control_endpoint(8), Err(UsbGenError::Configuration));
    assert_eq!(alloc.slot_count(), 1);
}

#[test]
fn in_and_out_of_same_type_share_a_slot() {
    let mut alloc = DeviceAllocator::new();
    alloc.allocate_control_endpoint(8).unwrap();
    let out = ep(EndpointType::Bulk, UsbDirection::Out, 64).allocate(&mut alloc).unwrap();
    let inn = ep(EndpointType::Bulk, UsbDirection::In, 64).allocate(&mut alloc).unwrap();
    assert_eq!(out.address(), 0x01);
    assert_eq!(inn.address(), 0x81);
    assert_eq!(out.direction(), UsbDirection::Out);
    assert_eq!(inn.direction(), UsbDirection::In);
    assert_eq!(inn.ep_type(), EndpointType::Bulk);
    assert_eq!(alloc.slot_count(), 2);
}

#[test]
fn no_two_endpoints_share_index_and_direction() {
    let mut alloc = DeviceAllocator::new();
    alloc.allocate_control_endpoint(8).unwrap();
    let a = ep(EndpointType::Bulk, UsbDirection::In, 64).allocate(&mut alloc).unwrap();
    let b = ep(EndpointType::Bulk, UsbDirection::In, 64).allocate(&mut alloc).unwrap();
    let c = ep(EndpointType::Interrupt, UsbDirection::In, 8).allocate(&mut alloc).unwrap();
    assert_ne!(a.address(), b.address());
    assert_ne!(b.address(), c.address());
    assert_ne!(a.address(), c.address());
    // a pinned request for an index and direction already served is refused
    let again = ep(EndpointType::Bulk, UsbDirection::In, 64).number(1).allocate(&mut alloc);
    assert!(matches!(again, Err(UsbGenError::Configuration)));
    let zero = ep(EndpointType::Control, UsbDirection::Out, 8).number(0).allocate(&mut alloc);
    assert!(matches!(zero, Err(UsbGenError::Configuration)));
    for i in 0..alloc.slot_count() {
        for j in 0..alloc.slot_count() {
            if i != j {
                assert_ne!(alloc.slot(i).address_index, alloc.slot(j).address_index);
            }
        }
    }
}

#[test]
fn pinned_number_reuses_slot_for_other_direction() {
    let mut alloc = DeviceAllocator::new();
    let a = ep(EndpointType::Bulk, UsbDirection::In, 64).number(5).allocate(&mut alloc).unwrap();
    let b = ep(EndpointType::Bulk, UsbDirection::Out, 32).number(5).allocate(&mut alloc).unwrap();
    assert_eq!(a.address(), 0x85);
    assert_eq!(b.address(), 0x05);
    assert_eq!(alloc.slot_count(), 1);
}

#[test]
fn pinned_number_above_15_is_refused() {
    let mut alloc = DeviceAllocator::new();
    let r = ep(EndpointType::Bulk, UsbDirection::In, 64).number(16).allocate(&mut alloc);
    assert!(matches!(r, Err(UsbGenError::Configuration)));
    assert_eq!(alloc.slot_count(), 0);
}

#[test]
fn unset_fields_are_refused() {
    let mut alloc = DeviceAllocator::new();
    let r = EndpointBuilder::new().direction(UsbDirection::In).max_packet_size(8).allocate(&mut alloc);
    assert!(matches!(r, Err(UsbGenError::Configuration)));
    let r = EndpointBuilder::new().ep_type(EndpointType::Bulk).max_packet_size(8).allocate(&mut alloc);
    assert!(matches!(r, Err(UsbGenError::Configuration)));
    let r = EndpointBuilder::new().ep_type(EndpointType::Bulk).direction(UsbDirection::In).allocate(&mut alloc);
    assert!(matches!(r, Err(UsbGenError::Configuration)));
}

#[test]
fn receive_buffer_above_1024_is_refused() {
    let mut alloc = DeviceAllocator::new();
    let r = ep(EndpointType::Bulk, UsbDirection::Out, 1025).allocate(&mut alloc);
    assert!(matches!(r, Err(UsbGenError::Configuration)));
    assert_eq!(alloc.slot_count(), 0);
    assert_eq!(alloc.end_address(), 512);
}

#[test]
fn ninth_slot_is_refused_but_control_endpoint_is_not() {
    let mut alloc = DeviceAllocator::new();
    for i in 0..8u16 {
        let r = ep(EndpointType::Interrupt, UsbDirection::In, 8).allocate(&mut alloc);
        assert!(r.is_ok(), "slot {} failed", i);
    }
    assert_eq!(alloc.slot_count(), 8);
    let r = ep(EndpointType::Interrupt, UsbDirection::In, 8).allocate(&mut alloc);
    assert!(matches!(r, Err(UsbGenError::ResourceExhausted)));
    // an OUT half still fits in an existing slot
    let r = ep(EndpointType::Interrupt, UsbDirection::Out, 8).allocate(&mut alloc);
    assert!(r.is_ok());
    assert_eq!(alloc.allocate_control_endpoint(8), Ok(()));
    assert_eq!(alloc.slot_count(), 9);
}

#[test]
fn memory_runs_out() {
    let mut alloc = DeviceAllocator::new();
    let a = ep(EndpointType::Bulk, UsbDirection::In, 400).allocate(&mut alloc);
    assert!(a.is_ok());
    let b = ep(EndpointType::Bulk, UsbDirection::Out, 128).allocate(&mut alloc);
    assert!(matches!(b, Err(UsbGenError::ResourceExhausted)));
    assert_eq!(alloc.start_address(), 8);
    assert_eq!(alloc.end_address(), 112);
    let c = ep(EndpointType::Bulk, UsbDirection::Out, 62).allocate(&mut alloc);
    assert!(c.is_ok());
    assert_eq!(alloc.start_address(), 8);
    assert_eq!(alloc.end_address(), 50);
}

#[test]
fn cursors_never_cross() {
    let mut alloc = DeviceAllocator::new();
    alloc.allocate_control_endpoint(64).unwrap();
    for _ in 0..20 {
        let _ = ep(EndpointType::Bulk, UsbDirection::In, 64).allocate(&mut alloc);
        let _ = ep(EndpointType::Bulk, UsbDirection::Out, 64).allocate(&mut alloc);
        assert!(alloc.start_address() < alloc.end_address());
        assert!(alloc.start_address() as u32 + (512 - alloc.end_address() as u32) <= 512);
    }
    assert_eq!(alloc.start_address(), 8 * alloc.slot_count() as u16);
}

#[test]
fn odd_transmit_size_is_rounded_up() {
    let mut alloc = DeviceAllocator::new();
    ep(EndpointType::Bulk, UsbDirection::In, 7).allocate(&mut alloc).unwrap();
    assert_eq!(alloc.slot(0).buffer0, Some(EndpointMemoryAllocation { address: 504, size: 8 }));
}

#[test]
fn double_buffered_takes_two_buffers() {
    let mut alloc = DeviceAllocator::new();
    let e = ep(EndpointType::Isochronous, UsbDirection::Out, 100)
        .allocate_double_buffered(&mut alloc)
        .unwrap();
    assert_eq!(e.address(), 0x01);
    let slot = alloc.slot(0);
    assert!(slot.double_buffered && slot.rx_enabled && !slot.tx_enabled);
    assert_eq!(slot.buffer0, Some(EndpointMemoryAllocation { address: 384, size: 128 }));
    assert_eq!(slot.buffer1, Some(EndpointMemoryAllocation { address: 256, size: 128 }));
    // the slot cannot be shared
    let r = ep(EndpointType::Isochronous, UsbDirection::In, 8).number(1).allocate(&mut alloc);
    assert!(matches!(r, Err(UsbGenError::Configuration)));
}

#[test]
fn target_configuration_in_words() {
    let mut alloc = DeviceAllocator::new();
    alloc.allocate_control_endpoint(64).unwrap();
    ep(EndpointType::Interrupt, UsbDirection::In, 8).allocate(&mut alloc).unwrap();
    let target = TargetDeviceConfiguration::from_allocator(&alloc).ok().unwrap();
    assert_eq!(target.buffer_table_address, 0);
    assert_eq!(target.endpoints.len(), 2);
    let c = &target.endpoints[0];
    assert_eq!(c.ep_address, 0);
    assert_eq!(c.ep_type, EndpointType::Control);
    assert_eq!(c.buffer_descriptor_offset_bytes, 0);
    assert_eq!(c.buffer0_offset_words, 448 / 2);
    assert_eq!(c.buffer0_size_words, 32);
    assert_eq!(c.buffer1_offset_words, 384 / 2);
    assert_eq!(c.buffer1_size_words, 32);
    assert_eq!(c.buffer_descriptor_data, [448, 0, 384, 0x8400]);
    let i = &target.endpoints[1];
    assert_eq!(i.ep_address, 1);
    assert!(i.tx_enabled && !i.rx_enabled);
    assert_eq!(i.buffer_descriptor_offset_bytes, 8);
    assert_eq!(i.buffer0_offset_words, 376 / 2);
    assert_eq!(i.buffer0_size_words, 4);
    assert_eq!(i.buffer1_size_words, 0);
    assert_eq!(i.buffer_descriptor_data, [376, 0, 0, 0]);
}

#[test]
fn target_configuration_rejects_double_buffering() {
    let mut alloc = DeviceAllocator::new();
    ep(EndpointType::Bulk, UsbDirection::In, 64).allocate_double_buffered(&mut alloc).unwrap();
    assert!(matches!(
        TargetDeviceConfiguration::from_allocator(&alloc),
        Err(UsbGenError::Unsupported)
    ));
}

#[test]
fn reservation_may_not_meet_the_other_cursor() {
    let mut alloc = DeviceAllocator::new();
    let r = ep(EndpointType::Bulk, UsbDirection::In, 504).allocate(&mut alloc);
    assert!(matches!(r, Err(UsbGenError::ResourceExhausted)));
    assert_eq!(alloc.slot_count(), 0);
    let r = ep(EndpointType::Bulk, UsbDirection::In, 502).allocate(&mut alloc);
    assert!(r.is_ok());
    assert_eq!(alloc.start_address(), 8);
    assert_eq!(alloc.end_address(), 10);
    let r = ep(EndpointType::Bulk, UsbDirection::Out, 2).allocate(&mut alloc);
    assert!(matches!(r, Err(UsbGenError::ResourceExhausted)));
    let r = ep(EndpointType::Bulk, UsbDirection::Out, 0).allocate(&mut alloc);
    assert!(r.is_ok());
    assert_eq!(alloc.end_address(), 10);
}

#[test]
fn double_buffered_request_does_not_take_over_a_used_slot() {
    let mut alloc = DeviceAllocator::new();
    let out = ep(EndpointType::Bulk, UsbDirection::Out, 64).allocate(&mut alloc).unwrap();
    let inn = ep(EndpointType::Bulk, UsbDirection::In, 64)
        .allocate_double_buffered(&mut alloc)
        .unwrap();
    assert_eq!(out.address(), 0x01);
    assert_eq!(inn.address(), 0x82);
    assert_eq!(alloc.slot_count(), 2);
    let first = alloc.slot(0);
    assert!(first.rx_enabled && !first.double_buffered);
    assert_eq!(first.buffer1, Some(EndpointMemoryAllocation { address: 448, size: 64 }));
    let second = alloc.slot(1);
    assert!(second.double_buffered && second.tx_enabled && !second.rx_enabled);
}

#[test]
fn control_slot_does_not_count_against_the_limit() {
    let mut alloc = DeviceAllocator::new();
    alloc.allocate_control_endpoint(8).unwrap();
    for i in 0..8u16 {
        let r = ep(EndpointType::Bulk, UsbDirection::In, 8).allocate(&mut alloc);
        assert!(r.is_ok(), "slot {} failed", i);
    }
    assert_eq!(alloc.slot_count(), 9);
    let r = ep(EndpointType::Bulk, UsbDirection::In, 8).allocate(&mut alloc);
    assert!(matches!(r, Err(UsbGenError::ResourceExhausted)));
    assert_eq!(alloc.slot_count(), 9);
}

#[test]
fn pinned_number_zero_is_refused() {
    let mut alloc = DeviceAllocator::new();
    let r = ep(EndpointType::Bulk, UsbDirection::In, 64).number(0).allocate(&mut alloc);
    assert!(matches!(r, Err(UsbGenError::Configuration)));
    assert_eq!(alloc.slot_count(), 0);
    assert_eq!(alloc.allocate_control_endpoint(8), Ok(()));
}
