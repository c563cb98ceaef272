use vstd::prelude::*;
use crate::address::{address_from_parts, direction_bit, ep_type_code, EndpointType, UsbDirection};
use std::collections::HashMap;
use crate::error::UsbGenError;
use crate::usb::{
    configuration_payload, device_payload, lemma_lo_hi, endpoint_payload, english_us, hi, utf16_of, utf16le, interface_payload, interned, lo, table_wf, tlv,
    UsbConfigurationDescriptor, UsbDescriptorWriter, UsbCustomDescriptor, UsbDeviceDescriptor,
    UsbEndpointDescriptor, UsbInterfaceDescriptor, UsbString, UsbStringAllocator, UsbStringView,
    utf16_units, MAX_PAYLOAD, MAX_STRING_UNITS,
};

verus! {

/// The longest configuration descriptor: its total-length field has 16 bits.
pub const MAX_TOTAL_LENGTH: usize = 65535;

/// A USB vendor ID and product ID pair.
pub struct UsbVidPid(pub u16, pub u16);

/// `v` with bit `bit` set to `value`.
pub open spec fn with_bit(v: u8, bit: u8, value: bool) -> u8 {
    if value {
        v | (1u8 << bit)
    } else {
        v & !(1u8 << bit)
    }
}

/// Relies on `bit_field::BitField::set_bit` for `u8`: sets or clears one bit
/// below 8 and leaves the others.
#[verifier::external_body]
fn set_bit(v: u8, bit: u8, value: bool) -> (r: u8)
    requires
        bit < 8,
    ensures
        r == with_bit(v, bit, value),
{
    let mut x = v;
    bit_field::BitField::set_bit(&mut x, bit as usize, value);
    x
}

/// The whole device under construction: its descriptor, its one
/// configuration, and its interfaces in number order.
pub struct DeviceBuilder {
    pub descriptor: UsbDeviceDescriptor,
    pub configuration_desc: UsbConfigurationDescriptor,
    pub interfaces: Vec<InterfaceBuilder>,
}

impl DeviceBuilder {
    /// A device with the given ids, control packets of 8 bytes, release 0.1,
    /// no strings, configuration 1 drawing 100 mA from the bus, and no interfaces.
    pub fn new(vid_pid: UsbVidPid) -> (r: Self)
        ensures
            r.descriptor.device_class == 0,
            r.descriptor.device_sub_class == 0,
            r.descriptor.device_protocol == 0,
            r.descriptor.max_packet_size_0 == 8,
            r.descriptor.vendor_id == vid_pid.0,
            r.descriptor.product_id == vid_pid.1,
            r.descriptor.device_release == 0x0010,
            r.descriptor.manufacturer@ == UsbStringView::Unset,
            r.descriptor.product@ == UsbStringView::Unset,
            r.descriptor.serial_number@ == UsbStringView::Unset,
            r.configuration_desc.configuration_value == 1,
            r.configuration_desc.configuration_string@ == UsbStringView::Unset,
            r.configuration_desc.attributes == 0x80,
            r.configuration_desc.max_power == 50,
            r.interfaces@.len() == 0,
    {
        Self {
            descriptor: UsbDeviceDescriptor {
                device_class: 0,
                device_sub_class: 0,
                device_protocol: 0,
                max_packet_size_0: 8,
                vendor_id: vid_pid.0,
                product_id: vid_pid.1,
                device_release: 0x0010,
                manufacturer: UsbString::Unset,
                product: UsbString::Unset,
                serial_number: UsbString::Unset,
            },
            configuration_desc: UsbConfigurationDescriptor {
                configuration_value: 1,
                configuration_string: UsbString::Unset,
                attributes: 0x80,
                max_power: 50,
            },
            interfaces: Vec::new(),
        }
    }

    /// Sets the device class code; 0 leaves the class to the interfaces,
    /// 0xff is vendor-specific.
    pub fn device_class(self, device_class: u8) -> (r: Self)
        ensures
            r == (DeviceBuilder {
                descriptor: UsbDeviceDescriptor { device_class, ..self.descriptor },
                ..self
            }),
    {
        let mut b = self;
        b.descriptor.device_class = device_class;
        b
    }

    /// Sets the device sub-class code.
    pub fn device_sub_class(self, device_sub_class: u8) -> (r: Self)
        ensures
            r == (DeviceBuilder {
                descriptor: UsbDeviceDescriptor { device_sub_class, ..self.descriptor },
                ..self
            }),
    {
        let mut b = self;
        b.descriptor.device_sub_class = device_sub_class;
        b
    }

    /// Sets the device protocol code.
    pub fn device_protocol(self, device_protocol: u8) -> (r: Self)
        ensures
            r == (DeviceBuilder {
                descriptor: UsbDeviceDescriptor { device_protocol, ..self.descriptor },
                ..self
            }),
    {
        let mut b = self;
        b.descriptor.device_protocol = device_protocol;
        b
    }

    /// Sets the device release number in BCD.
    pub fn device_release(self, device_release: u16) -> (r: Self)
        ensures
            r == (DeviceBuilder {
                descriptor: UsbDeviceDescriptor { device_release, ..self.descriptor },
                ..self
            }),
    {
        let mut b = self;
        b.descriptor.device_release = device_release;
        b
    }

    /// Sets the control endpoint's packet size: 8, 16, 32 or 64 bytes.
    pub fn max_packet_size_0(self, max_packet_size_0: u8) -> (r: Result<Self, UsbGenError>)
        ensures
            match r {
                Ok(b) => {
                    &&& max_packet_size_0 == 8 || max_packet_size_0 == 16 || max_packet_size_0
                        == 32 || max_packet_size_0 == 64
                    &&& b == (DeviceBuilder {
                        descriptor: UsbDeviceDescriptor { max_packet_size_0, ..self.descriptor },
                        ..self
                    })
                },
                Err(e) => {
                    &&& e == UsbGenError::Configuration
                    &&& !(max_packet_size_0 == 8 || max_packet_size_0 == 16 || max_packet_size_0
                        == 32 || max_packet_size_0 == 64)
                },
            },
    {
        match max_packet_size_0 {
            8 | 16 | 32 | 64 => {},
            _ => return Err(UsbGenError::Configuration),
        }
        let mut b = self;
        b.descriptor.max_packet_size_0 = max_packet_size_0;
        Ok(b)
    }

    /// Sets whether the device may have its own power source (bit 6 of the
    /// configuration attributes).
    pub fn self_powered(self, self_powered: bool) -> (r: Self)
        ensures
            r == (DeviceBuilder {
                configuration_desc: UsbConfigurationDescriptor {
                    attributes: with_bit(self.configuration_desc.attributes, 6, self_powered),
                    ..self.configuration_desc
                },
                ..self
            }),
    {
        let mut b = self;
        b.configuration_desc.attributes = set_bit(b.configuration_desc.attributes, 6, self_powered);
        b
    }

    /// Sets whether the device can wake the host (bit 5 of the configuration
    /// attributes).
    pub fn supports_remote_wakeup(self, supports_remote_wakeup: bool) -> (r: Self)
        ensures
            r == (DeviceBuilder {
                configuration_desc: UsbConfigurationDescriptor {
                    attributes: with_bit(
                        self.configuration_desc.attributes,
                        5,
                        supports_remote_wakeup,
                    ),
                    ..self.configuration_desc
                },
                ..self
            }),
    {
        let mut b = self;
        b.configuration_desc.attributes = set_bit(
            b.configuration_desc.attributes,
            5,
            supports_remote_wakeup,
        );
        b
    }

    /// Sets the most current the device draws from the bus, in mA (at most
    /// 500); the descriptor holds it in units of 2 mA.
    pub fn max_power(self, max_power_ma: usize) -> (r: Result<Self, UsbGenError>)
        ensures
            match r {
                Ok(b) => {
                    &&& max_power_ma <= 500
                    &&& b == (DeviceBuilder {
                        configuration_desc: UsbConfigurationDescriptor {
                            max_power: (max_power_ma / 2) as u8,
                            ..self.configuration_desc
                        },
                        ..self
                    })
                },
                Err(e) => e == UsbGenError::Configuration && max_power_ma > 500,
            },
    {
        if max_power_ma > 500 {
            return Err(UsbGenError::Configuration);
        }
        let mut b = self;
        b.configuration_desc.max_power = (max_power_ma / 2) as u8;
        Ok(b)
    }

    /// Sets the manufacturer name.
    pub fn manufacturer(self, manufacturer: &str) -> (r: Self)
        ensures
            r.descriptor.manufacturer@ == UsbStringView::Const(manufacturer@),
            r == (DeviceBuilder {
                descriptor: UsbDeviceDescriptor { manufacturer: r.descriptor.manufacturer, ..self.descriptor },
                ..self
            }),
    {
        let mut b = self;
        b.descriptor.manufacturer = UsbString::Const(manufacturer.to_owned());
        b
    }

    /// Sets the product name.
    pub fn product(self, product: &str) -> (r: Self)
        ensures
            r.descriptor.product@ == UsbStringView::Const(product@),
            r == (DeviceBuilder {
                descriptor: UsbDeviceDescriptor { product: r.descriptor.product, ..self.descriptor },
                ..self
            }),
    {
        let mut b = self;
        b.descriptor.product = UsbString::Const(product.to_owned());
        b
    }

    /// Sets the serial number.
    pub fn serial_number(self, serial_number: &str) -> (r: Self)
        ensures
            r.descriptor.serial_number@ == UsbStringView::Const(serial_number@),
            r == (DeviceBuilder {
                descriptor: UsbDeviceDescriptor { serial_number: r.descriptor.serial_number, ..self.descriptor },
                ..self
            }),
    {
        let mut b = self;
        b.descriptor.serial_number = UsbString::Const(serial_number.to_owned());
        b
    }

    /// Sets the configuration's name.
    pub fn configuration(self, configuration: &str) -> (r: Self)
        ensures
            r.configuration_desc.configuration_string@ == UsbStringView::Const(configuration@),
            r == (DeviceBuilder {
                configuration_desc: UsbConfigurationDescriptor {
                    configuration_string: r.configuration_desc.configuration_string,
                    ..self.configuration_desc
                },
                ..self
            }),
    {
        let mut b = self;
        b.configuration_desc.configuration_string = UsbString::Const(configuration.to_owned());
        b
    }

    /// Reserves the next interface number and hands out a builder for it; the
    /// device holds an empty interface under that number until it is saved.
    pub fn alloc_interface(&mut self) -> (r: InterfaceBuilder)
        requires
            old(self).interfaces@.len() < 255,
        ensures
            r.is_empty(old(self).interfaces@.len() as u8),
            final(self).interfaces@.len() == old(self).interfaces@.len() + 1,
            final(self).interfaces@.drop_last() == old(self).interfaces@,
            final(self).interfaces@.last().is_empty(old(self).interfaces@.len() as u8),
            final(self).descriptor == old(self).descriptor,
            final(self).configuration_desc == old(self).configuration_desc,
    {
        let index = self.interfaces.len() as u8;
        self.interfaces.push(InterfaceBuilder::new(index));
        InterfaceBuilder::new(index)
    }

    /// Puts a finished interface in its place: its number must be one that
    /// was handed out, its alternate setting 0, and it must have an endpoint.
    fn add_interface(&mut self, interface: InterfaceBuilder) -> (r: Result<(), UsbGenError>)
        ensures
            final(self).descriptor == old(self).descriptor,
            final(self).configuration_desc == old(self).configuration_desc,
            match r {
                Ok(_) => {
                    &&& interface.can_be_saved_in(old(self).interfaces@.len())
                    &&& final(self).interfaces@ == old(self).interfaces@.update(
                        interface.descriptor.interface_number as int,
                        interface,
                    )
                },
                Err(e) => {
                    &&& e == UsbGenError::Configuration
                    &&& !interface.can_be_saved_in(old(self).interfaces@.len())
                    &&& final(self).interfaces@ == old(self).interfaces@
                },
            },
    {
        let index = interface.descriptor.interface_number as usize;
        if index >= self.interfaces.len() || interface.descriptor.alternate_setting != 0
            || interface.endpoints.len() == 0 {
            return Err(UsbGenError::Configuration);
        }
        self.interfaces.set(index, interface);
        Ok(())
    }
}

/// One interface under construction: its descriptor, the class-specific
/// descriptors that follow it, and its endpoints.
pub struct InterfaceBuilder {
    pub descriptor: UsbInterfaceDescriptor,
    pub custom_descriptors: Vec<UsbCustomDescriptor>,
    pub endpoints: Vec<UsbEndpointDescriptor>,
}

impl InterfaceBuilder {
    /// Whether this is interface `n` with class codes 0, alternate setting 0,
    /// no string and nothing attached.
    pub open spec fn is_empty(&self, n: u8) -> bool {
        &&& self.descriptor.interface_number == n
        &&& self.descriptor.alternate_setting == 0
        &&& self.descriptor.interface_class == 0
        &&& self.descriptor.interface_sub_class == 0
        &&& self.descriptor.interface_protocol == 0
        &&& self.descriptor.interface_string@ == UsbStringView::Unset
        &&& self.custom_descriptors@.len() == 0
        &&& self.endpoints@.len() == 0
    }

    /// Whether the interface can be saved in a device that has handed out
    /// `count` interface numbers.
    pub open spec fn can_be_saved_in(&self, count: nat) -> bool {
        &&& (self.descriptor.interface_number as nat) < count
        &&& self.descriptor.alternate_setting == 0
        &&& self.endpoints@.len() > 0
    }

    /// Sets the alternate setting (only 0 can be saved).
    pub fn alternate_setting(self, alternate_setting: u8) -> (r: Self)
        ensures
            r.descriptor == (UsbInterfaceDescriptor { alternate_setting, ..self.descriptor }),
            r.custom_descriptors == self.custom_descriptors,
            r.endpoints == self.endpoints,
    {
        let mut b = self;
        b.descriptor.alternate_setting = alternate_setting;
        b
    }

    /// Sets the interface class code.
    pub fn interface_class(self, interface_class: u8) -> (r: Self)
        ensures
            r.descriptor == (UsbInterfaceDescriptor { interface_class, ..self.descriptor }),
            r.custom_descriptors == self.custom_descriptors,
            r.endpoints == self.endpoints,
    {
        let mut b = self;
        b.descriptor.interface_class = interface_class;
        b
    }

    /// Sets the interface sub-class code.
    pub fn interface_sub_class(self, interface_sub_class: u8) -> (r: Self)
        ensures
            r.descriptor == (UsbInterfaceDescriptor { interface_sub_class, ..self.descriptor }),
            r.custom_descriptors == self.custom_descriptors,
            r.endpoints == self.endpoints,
    {
        let mut b = self;
        b.descriptor.interface_sub_class = interface_sub_class;
        b
    }

    /// Sets the interface protocol code.
    pub fn interface_protocol(self, interface_protocol: u8) -> (r: Self)
        ensures
            r.descriptor == (UsbInterfaceDescriptor { interface_protocol, ..self.descriptor }),
            r.custom_descriptors == self.custom_descriptors,
            r.endpoints == self.endpoints,
    {
        let mut b = self;
        b.descriptor.interface_protocol = interface_protocol;
        b
    }

    /// Appends a class- or vendor-specific descriptor to go after the
    /// interface descriptor.
    pub fn descriptor(self, descriptor_type: u8, descriptor: &[u8]) -> (r: Self)
        ensures
            r.descriptor == self.descriptor,
            r.endpoints == self.endpoints,
            r.custom_descriptors@.len() == self.custom_descriptors@.len() + 1,
            r.custom_descriptors@.drop_last() == self.custom_descriptors@,
            r.custom_descriptors@.last().descriptor_type == descriptor_type,
            r.custom_descriptors@.last().data@ == descriptor@,
    {
        let mut data: Vec<u8> = Vec::new();
        let mut i: usize = 0;
        while i < descriptor.len()
            invariant
                i <= descriptor@.len(),
                data@ == descriptor@.subrange(0, i as int),
            decreases descriptor@.len() - i,
        {
            data.push(descriptor[i]);
            i = i + 1;
        }
        assert(descriptor@.subrange(0, descriptor@.len() as int) == descriptor@);
        let mut b = self;
        b.custom_descriptors.push(UsbCustomDescriptor { descriptor_type, data });
        proof {
            assert(b.custom_descriptors@.drop_last() == self.custom_descriptors@);
        }
        b
    }

    /// Attaches an endpoint.
    pub fn endpoint(self, endpoint: UsbEndpointDescriptor) -> (r: Self)
        requires
            self.endpoints@.len() < 255,
        ensures
            r.descriptor == self.descriptor,
            r.custom_descriptors == self.custom_descriptors,
            r.endpoints@ == self.endpoints@.push(endpoint),
    {
        let mut b = self;
        b.endpoints.push(endpoint);
        b
    }

    /// Stores the interface in `device` under its number; fails with a
    /// configuration error unless the number was handed out by `device`, the
    /// alternate setting is 0 and an endpoint is attached.
    pub fn save(self, device: &mut DeviceBuilder) -> (r: Result<(), UsbGenError>)
        ensures
            final(device).descriptor == old(device).descriptor,
            final(device).configuration_desc == old(device).configuration_desc,
            match r {
                Ok(_) => {
                    &&& self.can_be_saved_in(old(device).interfaces@.len())
                    &&& final(device).interfaces@ == old(device).interfaces@.update(
                        self.descriptor.interface_number as int,
                        self,
                    )
                },
                Err(e) => {
                    &&& e == UsbGenError::Configuration
                    &&& !self.can_be_saved_in(old(device).interfaces@.len())
                    &&& final(device).interfaces@ == old(device).interfaces@
                },
            },
    {
        device.add_interface(self)
    }

    fn new(interface_number: u8) -> (r: Self)
        ensures
            r.is_empty(interface_number),
    {
        Self {
            descriptor: UsbInterfaceDescriptor {
                interface_number,
                alternate_setting: 0,
                interface_class: 0,
                interface_sub_class: 0,
                interface_protocol: 0,
                interface_string: UsbString::Unset,
            },
            custom_descriptors: Vec::new(),
            endpoints: Vec::new(),
        }
    }
}


/// An endpoint under construction; the number is left unset to let the
/// allocator pick one.
#[derive(Clone, Copy, Debug, PartialEq, Eq, Structural)]
pub struct EndpointBuilder {
    pub number: Option<u8>,
    pub direction: Option<UsbDirection>,
    pub ep_type: Option<EndpointType>,
    pub max_packet_size: Option<u16>,
    pub interval: u8,
}

impl EndpointBuilder {
    /// A builder with every field unset and a polling interval of 0.
    pub fn new() -> (r: Self)
        ensures
            r == (EndpointBuilder {
                number: None,
                direction: None,
                ep_type: None,
                max_packet_size: None,
                interval: 0,
            }),
    {
        Self { number: None, direction: None, ep_type: None, max_packet_size: None, interval: 0 }
    }

    pub fn number(self, number: u8) -> (r: Self)
        ensures
            r == (EndpointBuilder { number: Some(number), ..self }),
    {
        EndpointBuilder { number: Some(number), ..self }
    }

    pub fn direction(self, direction: UsbDirection) -> (r: Self)
        ensures
            r == (EndpointBuilder { direction: Some(direction), ..self }),
    {
        EndpointBuilder { direction: Some(direction), ..self }
    }

    pub fn ep_type(self, ep_type: EndpointType) -> (r: Self)
        ensures
            r == (EndpointBuilder { ep_type: Some(ep_type), ..self }),
    {
        EndpointBuilder { ep_type: Some(ep_type), ..self }
    }

    pub fn max_packet_size(self, max_packet_size: u16) -> (r: Self)
        ensures
            r == (EndpointBuilder { max_packet_size: Some(max_packet_size), ..self }),
    {
        EndpointBuilder { max_packet_size: Some(max_packet_size), ..self }
    }

    pub fn interval(self, interval: u8) -> (r: Self)
        ensures
            r == (EndpointBuilder { interval, ..self }),
    {
        EndpointBuilder { interval, ..self }
    }

    /// Whether every field that a descriptor needs is set.
    pub open spec fn is_complete(&self) -> bool {
        &&& self.number is Some
        &&& self.direction is Some
        &&& self.ep_type is Some
        &&& self.max_packet_size is Some
    }

    /// The descriptor that a complete builder stands for.
    pub open spec fn descriptor_spec(&self) -> UsbEndpointDescriptor {
        UsbEndpointDescriptor {
            address: self.number.unwrap() | direction_bit(self.direction.unwrap()),
            attributes: ep_type_code(self.ep_type.unwrap()),
            max_packet_size: self.max_packet_size.unwrap(),
            interval: self.interval,
        }
    }

    /// The endpoint descriptor of a builder whose fields are all set.
    pub fn build(self) -> (r: UsbEndpointDescriptor)
        requires
            self.is_complete(),
        ensures
            r == self.descriptor_spec(),
    {
        let number = match self.number {
            Some(n) => n,
            None => 0,
        };
        let direction = match self.direction {
            Some(d) => d,
            None => UsbDirection::Out,
        };
        let ep_type = match self.ep_type {
            Some(t) => t,
            None => EndpointType::Control,
        };
        let max_packet_size = match self.max_packet_size {
            Some(m) => m,
            None => 0,
        };
        UsbEndpointDescriptor {
            address: address_from_parts(number, direction),
            attributes: ep_type.code(),
            max_packet_size,
            interval: self.interval,
        }
    }
}

/// The strings of a device in the order they are interned: manufacturer,
/// product, serial number, configuration, then each interface's.
pub open spec fn device_strings(d: &DeviceBuilder) -> Seq<UsbStringView> {
    seq![
        d.descriptor.manufacturer@,
        d.descriptor.product@,
        d.descriptor.serial_number@,
        d.configuration_desc.configuration_string@,
    ] + d.interfaces@.map_values(|i: InterfaceBuilder| i.descriptor.interface_string@)
}

/// `table` after interning each of `ss` in turn.
pub open spec fn intern_all(table: Seq<UsbStringView>, ss: Seq<UsbStringView>) -> Seq<UsbStringView>
    decreases ss.len(),
{
    if ss.len() == 0 {
        table
    } else {
        interned(intern_all(table, ss.drop_last()), ss.last()).0
    }
}

/// The string table of a device: index 0 unset, then its strings by first use.
pub open spec fn string_table(d: &DeviceBuilder) -> Seq<UsbStringView> {
    intern_all(seq![UsbStringView::Unset], device_strings(d))
}

/// Interning keeps a table well formed while it stays within 256 entries,
/// holds what it held and every interned value.
proof fn lemma_intern_all(table: Seq<UsbStringView>, ss: Seq<UsbStringView>)
    requires
        table_wf(table),
        intern_all(table, ss).len() <= 256,
    ensures
        table_wf(intern_all(table, ss)),
        forall|x: UsbStringView| table.contains(x) ==> intern_all(table, ss).contains(x),
        forall|k: int| 0 <= k < ss.len() ==> intern_all(table, ss).contains(#[trigger] ss[k]),
    decreases ss.len(),
{
    if ss.len() > 0 {
        let p = ss.drop_last();
        let t = intern_all(table, p);
        assert(t.len() <= intern_all(table, ss).len());
        lemma_intern_all(table, p);
        let s = ss.last();
        let u = interned(t, s).0;
        if !t.contains(s) {
            assert(u == t.push(s));
            assert(u[t.len() as int] == s);
            assert forall|i: int, j: int| 0 <= i < j < u.len() implies #[trigger] u[i]
                != #[trigger] u[j] by {
                if j == t.len() {
                    assert(u[i] == t[i]);
                }
            }
            assert forall|x: UsbStringView| t.contains(x) implies u.contains(x) by {
                let i = choose|i: int| 0 <= i < t.len() && t[i] == x;
                assert(u[i] == x);
            }
        }
        assert forall|k: int| 0 <= k < ss.len() implies u.contains(#[trigger] ss[k]) by {
            if k < p.len() {
                assert(p[k] == ss[k]);
                assert(t.contains(p[k]));
            }
        }
    }
}

/// Interning more values never shrinks the table.
proof fn lemma_intern_prefix(table: Seq<UsbStringView>, ss: Seq<UsbStringView>, i: int)
    requires
        0 <= i <= ss.len(),
    ensures
        intern_all(table, ss.take(i)).len() <= intern_all(table, ss).len(),
    decreases ss.len(),
{
    if i < ss.len() {
        let p = ss.drop_last();
        assert(p.take(i) == ss.take(i));
        lemma_intern_prefix(table, p, i);
    } else {
        assert(ss.take(i) == ss);
    }
}

/// Interns `s` unless the table is full and does not hold it yet.
fn intern_checked(table: &mut UsbStringAllocator, s: &UsbString) -> (ok: bool)
    requires
        old(table).wf(),
    ensures
        final(table).wf(),
        ok ==> final(table)@ == interned(old(table)@, s@).0,
        !ok ==> old(table)@.len() == 256 && !old(table)@.contains(s@),
{
    if table.len() >= 256 && table.get_index(s).is_none() {
        return false;
    }
    table.intern(s);
    true
}

impl DeviceBuilder {
    /// The string at position `j` of the device's strings in interning order.
    fn device_string(&self, j: usize) -> (r: &UsbString)
        requires
            j < 4 + self.interfaces@.len(),
        ensures
            r@ == device_strings(self)[j as int],
    {
        if j == 0 {
            &self.descriptor.manufacturer
        } else if j == 1 {
            &self.descriptor.product
        } else if j == 2 {
            &self.descriptor.serial_number
        } else if j == 3 {
            &self.configuration_desc.configuration_string
        } else {
            &self.interfaces[j - 4].descriptor.interface_string
        }
    }

    /// Interns the device's strings in their fixed order; a configuration
    /// error when they need more than 256 indices.
    fn intern_strings(&self) -> (r: Result<UsbStringAllocator, UsbGenError>)
        requires
            self.interfaces@.len() <= 255,
        ensures
            match r {
                Ok(t) => {
                    &&& t.wf()
                    &&& t@ == string_table(self)
                    &&& forall|k: int|
                        0 <= k < device_strings(self).len() ==> t@.contains(
                            #[trigger] device_strings(self)[k],
                        )
                },
                Err(e) => e == UsbGenError::Configuration && string_table(self).len() > 256,
            },
    {
        let ghost ss = device_strings(self);
        let ghost init = seq![UsbStringView::Unset];
        let mut table = UsbStringAllocator::new();
        let n = 4 + self.interfaces.len();
        assert(ss.take(0) == Seq::<UsbStringView>::empty());
        let mut j: usize = 0;
        while j < n
            invariant
                n == ss.len(),
                j <= n,
                ss == device_strings(self),
                init == seq![UsbStringView::Unset],
                table.wf(),
                table@ == intern_all(init, ss.take(j as int)),
            decreases n - j,
        {
            let s = self.device_string(j);
            proof {
                assert(ss.take(j + 1).drop_last() == ss.take(j as int));
                assert(ss.take(j + 1).last() == ss[j as int]);
            }
            if !intern_checked(&mut table, s) {
                proof {
                    assert(intern_all(init, ss.take(j + 1)).len() == 257);
                    lemma_intern_prefix(init, ss, j + 1);
                }
                return Err(UsbGenError::Configuration);
            }
            j = j + 1;
        }
        proof {
            assert(ss.take(j as int) == ss);
            lemma_intern_all(init, ss);
        }
        Ok(table)
    }
}

/// Class- or vendor-specific descriptors, one after another.
pub open spec fn customs_bytes(cs: Seq<UsbCustomDescriptor>) -> Seq<u8>
    decreases cs.len(),
{
    if cs.len() == 0 {
        Seq::empty()
    } else {
        customs_bytes(cs.drop_last()) + tlv(cs.last().descriptor_type, cs.last().data@)
    }
}

/// Endpoint descriptors, one after another.
pub open spec fn endpoints_bytes(es: Seq<UsbEndpointDescriptor>) -> Seq<u8>
    decreases es.len(),
{
    if es.len() == 0 {
        Seq::empty()
    } else {
        endpoints_bytes(es.drop_last()) + tlv(5, endpoint_payload(es.last()))
    }
}

/// An interface header holding `n` as its endpoint count.
pub open spec fn interface_header(i: InterfaceBuilder, table: Seq<UsbStringView>, n: u8) -> Seq<u8> {
    tlv(4, interface_payload(i.descriptor, table).update(2, n))
}

/// An interface descriptor with its endpoint count, then its class-specific
/// descriptors, then its endpoints.
pub open spec fn interface_bytes(i: InterfaceBuilder, table: Seq<UsbStringView>) -> Seq<u8> {
    interface_header(i, table, i.endpoints@.len() as u8) + customs_bytes(i.custom_descriptors@)
        + endpoints_bytes(i.endpoints@)
}

/// Interfaces, one after another.
pub open spec fn interfaces_bytes(is: Seq<InterfaceBuilder>, table: Seq<UsbStringView>) -> Seq<u8>
    decreases is.len(),
{
    if is.len() == 0 {
        Seq::empty()
    } else {
        interfaces_bytes(is.drop_last(), table) + interface_bytes(is.last(), table)
    }
}

/// A configuration header holding total length `total` and interface count `n`.
pub open spec fn configuration_header(
    c: UsbConfigurationDescriptor,
    table: Seq<UsbStringView>,
    total: int,
    n: u8,
) -> Seq<u8> {
    tlv(2, configuration_payload(c, table).update(0, lo(total)).update(1, hi(total)).update(2, n))
}

/// The configuration descriptor of a device: header with total length
/// (wrapping at 16 bits) and interface count, then each interface.
pub open spec fn configuration_bytes(
    c: UsbConfigurationDescriptor,
    is: Seq<InterfaceBuilder>,
    table: Seq<UsbStringView>,
) -> Seq<u8> {
    let body = interfaces_bytes(is, table);
    configuration_header(c, table, 9int + body.len(), is.len() as u8) + body
}

/// Whether every class-specific descriptor of the interfaces fits its length byte.
pub open spec fn customs_fit(is: Seq<InterfaceBuilder>) -> bool {
    forall|k: int, j: int|
        0 <= k < is.len() && 0 <= j < is[k].custom_descriptors@.len() ==> (#[trigger] is[k].custom_descriptors@[j]).data@.len()
            <= MAX_PAYLOAD
}

/// Writes one interface with all that is attached to it.
fn write_interface(w: &mut UsbDescriptorWriter, iface: &InterfaceBuilder, table: &UsbStringAllocator)
    requires
        old(w).wf(),
        table.wf(),
        table@.contains(iface.descriptor.interface_string@),
        iface.endpoints@.len() <= 255,
        forall|j: int|
            0 <= j < iface.custom_descriptors@.len() ==> (#[trigger] iface.custom_descriptors@[j]).data@.len()
                <= MAX_PAYLOAD,
        old(w).interfaces_mark() is Some,
        old(w).bytes()[old(w).interfaces_mark().unwrap() as int] < 255,
    ensures
        final(w).wf(),
        final(w).bytes() == old(w).bytes().update(
            old(w).interfaces_mark().unwrap() as int,
            (old(w).bytes()[old(w).interfaces_mark().unwrap() as int] + 1) as u8,
        ) + interface_bytes(*iface, table@),
        final(w).config_start() == old(w).config_start(),
        final(w).interfaces_mark() == old(w).interfaces_mark(),
{
    let ghost before = old(w).bytes().update(
        old(w).interfaces_mark().unwrap() as int,
        (old(w).bytes()[old(w).interfaces_mark().unwrap() as int] + 1) as u8,
    );
    let ghost hdr0 = tlv(4, interface_payload(iface.descriptor, table@));
    w.interface(&iface.descriptor, table);
    let ghost mark = w.endpoints_mark().unwrap();
    assert(mark == before.len() + 4);
    assert(hdr0 == interface_header(*iface, table@, 0));
    let mut j: usize = 0;
    while j < iface.custom_descriptors.len()
        invariant
            w.wf(),
            forall|i: int|
                0 <= i < iface.custom_descriptors@.len() ==> (#[trigger] iface.custom_descriptors@[i]).data@.len()
                    <= MAX_PAYLOAD,
            j <= iface.custom_descriptors@.len(),
            w.bytes() == before + interface_header(*iface, table@, 0) + customs_bytes(
                iface.custom_descriptors@.take(j as int),
            ),
            w.endpoints_mark() == Some(mark),
            mark == before.len() + 4,
            w.config_start() == old(w).config_start(),
            w.interfaces_mark() == old(w).interfaces_mark(),
        decreases iface.custom_descriptors@.len() - j,
    {
        w.custom_descriptor(&iface.custom_descriptors[j]);
        proof {
            let cs = iface.custom_descriptors@;
            assert(cs.take(j + 1).drop_last() == cs.take(j as int));
            assert(cs.take(j + 1).last() == cs[j as int]);
        }
        j = j + 1;
    }
    assert(iface.custom_descriptors@.take(j as int) == iface.custom_descriptors@);
    let ghost customs = customs_bytes(iface.custom_descriptors@);
    let mut j: usize = 0;
    while j < iface.endpoints.len()
        invariant
            w.wf(),
            j <= iface.endpoints@.len() <= 255,
            w.bytes() == before + interface_header(*iface, table@, j as u8) + customs
                + endpoints_bytes(iface.endpoints@.take(j as int)),
            w.endpoints_mark() == Some(mark),
            mark == before.len() + 4,
            w.config_start() == old(w).config_start(),
            w.interfaces_mark() == old(w).interfaces_mark(),
        decreases iface.endpoints@.len() - j,
    {
        proof {
            let hdr = interface_header(*iface, table@, j as u8);
            assert(w.bytes()[mark as int] == hdr[4]);
        }
        w.endpoint(&iface.endpoints[j]);
        proof {
            let es = iface.endpoints@;
            assert(es.take(j + 1).drop_last() == es.take(j as int));
            assert(es.take(j + 1).last() == es[j as int]);
            let rest = customs + endpoints_bytes(es.take(j as int));
            assert(interface_header(*iface, table@, j as u8).update(4, (j + 1) as u8)
                == interface_header(*iface, table@, (j + 1) as u8));
            assert((before + interface_header(*iface, table@, j as u8) + rest).update(
                mark as int,
                (j + 1) as u8,
            ) == before + interface_header(*iface, table@, (j + 1) as u8) + rest);
        }
        j = j + 1;
    }
    assert(iface.endpoints@.take(j as int) == iface.endpoints@);
}

impl DeviceBuilder {
    /// Writes the configuration descriptor with every interface.
    fn configuration_descriptor(&self, table: &UsbStringAllocator) -> (r: Result<Vec<u8>, UsbGenError>)
        requires
            customs_fit(self.interfaces@),
            table.wf(),
            table@.contains(self.configuration_desc.configuration_string@),
            forall|k: int|
                0 <= k < self.interfaces@.len() ==> table@.contains(
                    (#[trigger] self.interfaces@[k]).descriptor.interface_string@,
                ),
            self.interfaces@.len() <= 255,
            forall|k: int|
                0 <= k < self.interfaces@.len() ==> (#[trigger] self.interfaces@[k]).endpoints@.len()
                    <= 255,
        ensures
            match r {
                Ok(v) => {
                    &&& v@ == configuration_bytes(self.configuration_desc, self.interfaces@, table@)
                    &&& v@.len() <= MAX_TOTAL_LENGTH
                },
                Err(e) => {
                    &&& e == UsbGenError::Configuration
                    &&& configuration_bytes(self.configuration_desc, self.interfaces@, table@).len()
                        > MAX_TOTAL_LENGTH
                },
            },
    {
        let ghost c = self.configuration_desc;
        let ghost is = self.interfaces@;
        let mut w = UsbDescriptorWriter::new();
        w.configuration(&self.configuration_desc, table);
        proof {
            assert(lo(0) == 0 && hi(0) == 0);
            assert(is.take(0) == Seq::<InterfaceBuilder>::empty());
            assert(w.bytes() == configuration_header(c, table@, 0, 0) + interfaces_bytes(
                is.take(0),
                table@,
            ));
        }
        let mut k: usize = 0;
        while k < self.interfaces.len()
            invariant
                w.wf(),
                table.wf(),
                c == self.configuration_desc,
                is == self.interfaces@,
                k <= is.len() <= 255,
                forall|i: int|
                    0 <= i < is.len() ==> table@.contains(
                        (#[trigger] is[i]).descriptor.interface_string@,
                    ),
                forall|i: int| 0 <= i < is.len() ==> (#[trigger] is[i]).endpoints@.len() <= 255,
                customs_fit(is),
                w.config_start() == Some(0usize),
                w.interfaces_mark() == Some(4usize),
                w.bytes() == configuration_header(c, table@, 0, k as u8) + interfaces_bytes(
                    is.take(k as int),
                    table@,
                ),
            decreases is.len() - k,
        {
            let ghost body = interfaces_bytes(is.take(k as int), table@);
            assert(w.bytes()[4] == k as u8);
            assert forall|j: int| 0 <= j < is[k as int].custom_descriptors@.len() implies (
            #[trigger] is[k as int].custom_descriptors@[j]).data@.len() <= MAX_PAYLOAD by {
                assert(is[k as int].custom_descriptors@[j] == is[k as int].custom_descriptors@[j]);
            }
            write_interface(&mut w, &self.interfaces[k], table);
            proof {
                assert(is.take(k + 1).drop_last() == is.take(k as int));
                assert(is.take(k + 1).last() == is[k as int]);
                assert((configuration_header(c, table@, 0, k as u8) + body).update(4, (k + 1) as u8)
                    == configuration_header(c, table@, 0, (k + 1) as u8) + body);
            }
            k = k + 1;
        }
        proof {
            assert(is.take(k as int) == is);
        }
        if w.position() > MAX_TOTAL_LENGTH {
            return Err(UsbGenError::Configuration);
        }
        let r = w.finish();
        proof {
            let body = interfaces_bytes(is, table@);
            let total = 9int + body.len();
            assert(r@ == (configuration_header(c, table@, 0, is.len() as u8) + body).update(
                2,
                lo(total),
            ).update(3, hi(total)));
            assert(r@ == configuration_bytes(c, is, table@));
        }
        Ok(r)
    }
}

/// The descriptors of a built device.
pub struct DeviceConfig {
    pub device_descriptor: Vec<u8>,
    pub configuration_descriptor: Vec<u8>,
    /// String descriptors by index; index 0 lists the supported language.
    pub string_descriptors: HashMap<u8, Vec<u8>>,
    /// Indices of strings that the firmware supplies, with their ids.
    pub custom_strings: HashMap<u8, usize>,
    /// Every endpoint: control OUT and IN first, then each interface's.
    pub endpoints: Vec<UsbEndpointDescriptor>,
}

/// The string descriptor for a table entry: the language list (US English)
/// for the unset entry, UTF-16LE text for a literal.
pub open spec fn string_descriptor_bytes(s: UsbStringView) -> Seq<u8> {
    match s {
        UsbStringView::Const(t) => tlv(3, utf16le(utf16_of(t))),
        _ => tlv(3, seq![lo(0x0409), hi(0x0409)]),
    }
}

/// Whether the two maps hold the string descriptors and run-time strings of `table`.
pub open spec fn strings_match(
    table: Seq<UsbStringView>,
    descriptors: Map<u8, Vec<u8>>,
    custom: Map<u8, usize>,
) -> bool {
    &&& forall|k: u8|
        (#[trigger] descriptors.contains_key(k) || custom.contains_key(k)) ==> (k as int)
            < table.len()
    &&& forall|k: u8| (#[trigger] custom.contains_key(k)) ==> (k as int) < table.len()
    &&& forall|i: int|
        0 <= i < table.len() ==> match #[trigger] table[i] {
            UsbStringView::Custom(id) => {
                &&& custom.contains_key(i as u8)
                &&& custom[i as u8] == id
                &&& !descriptors.contains_key(i as u8)
            },
            _ => {
                &&& descriptors.contains_key(i as u8)
                &&& descriptors[i as u8]@ == string_descriptor_bytes(table[i])
                &&& !custom.contains_key(i as u8)
            },
        }
}

/// Whether a string's text fits in a string descriptor.
pub open spec fn string_fits(s: UsbStringView) -> bool {
    s matches UsbStringView::Const(t) ==> utf16_of(t).len() <= MAX_STRING_UNITS
}

/// Whether every string of the table fits in a string descriptor.
pub open spec fn strings_fit(table: Seq<UsbStringView>) -> bool {
    forall|k: int| 0 <= k < table.len() ==> string_fits(#[trigger] table[k])
}

/// Writes the string descriptor of each table entry, and lists the entries
/// that the firmware supplies.
fn string_descriptors(table: UsbStringAllocator) -> (r: Result<
    (HashMap<u8, Vec<u8>>, HashMap<u8, usize>),
    UsbGenError,
>)
    requires
        table.wf(),
    ensures
        match r {
            Ok((d, c)) => strings_fit(table@) && strings_match(table@, d@, c@),
            Err(e) => e == UsbGenError::Configuration && !strings_fit(table@),
        },
{
    let ghost t = table@;
    let strings = table.into_inner();
    let mut descriptors: HashMap<u8, Vec<u8>> = HashMap::new();
    let mut custom: HashMap<u8, usize> = HashMap::new();
    let mut i: usize = 0;
    while i < strings.len()
        invariant
            t == table@,
            t.len() <= 256,
            strings@.len() == t.len(),
            forall|k: int| 0 <= k < t.len() ==> #[trigger] t[k] == strings@[k]@,
            i <= t.len(),
            forall|k: u8|
                (#[trigger] descriptors@.contains_key(k) || custom@.contains_key(k)) ==> (k as int)
                    < i,
            forall|k: u8| (#[trigger] custom@.contains_key(k)) ==> (k as int) < i,
            forall|k: int| 0 <= k < i ==> string_fits(#[trigger] t[k]),
            forall|k: int|
                0 <= k < i ==> match #[trigger] t[k] {
                    UsbStringView::Custom(id) => {
                        &&& custom@.contains_key(k as u8)
                        &&& custom@[k as u8] == id
                        &&& !descriptors@.contains_key(k as u8)
                    },
                    _ => {
                        &&& descriptors@.contains_key(k as u8)
                        &&& descriptors@[k as u8]@ == string_descriptor_bytes(t[k])
                        &&& !custom@.contains_key(k as u8)
                    },
                },
        decreases t.len() - i,
    {
        proof {
            assert(t[i as int] == strings@[i as int]@);
        }
        let index = i as u8;
        match &strings[i] {
            UsbString::Unset => {
                let mut w = UsbDescriptorWriter::new();
                let lang = english_us();
                let languages: [u8; 2] = [(lang % 256) as u8, (lang / 256) as u8];
                w.write(3, &languages);
                descriptors.insert(index, w.finish());
            },
            UsbString::Const(s) => {
                let units = utf16_units(s.as_str());
                if units.len() > MAX_STRING_UNITS {
                    assert(!string_fits(t[i as int]));
                    assert(!strings_fit(t));
                    return Err(UsbGenError::Configuration);
                }
                let mut w = UsbDescriptorWriter::new();
                w.utf16_string(&units);
                descriptors.insert(index, w.finish());
            },
            UsbString::Custom(id) => {
                custom.insert(index, *id);
            },
        }
        i = i + 1;
    }
    Ok((descriptors, custom))
}

/// The endpoints of the interfaces, in order.
pub open spec fn all_endpoints(is: Seq<InterfaceBuilder>) -> Seq<UsbEndpointDescriptor>
    decreases is.len(),
{
    if is.len() == 0 {
        Seq::empty()
    } else {
        all_endpoints(is.drop_last()) + is.last().endpoints@
    }
}

/// One half of the control endpoint.
pub open spec fn control_endpoint(d: UsbDirection, mps0: u8) -> UsbEndpointDescriptor {
    UsbEndpointDescriptor {
        address: 0u8 | direction_bit(d),
        attributes: 0,
        max_packet_size: mps0 as u16,
        interval: 0,
    }
}

/// Whether every interface has an endpoint.
pub open spec fn all_have_endpoints(is: Seq<InterfaceBuilder>) -> bool {
    forall|k: int| 0 <= k < is.len() ==> (#[trigger] is[k]).endpoints@.len() > 0
}

impl DeviceBuilder {
    /// Every endpoint of the device: control OUT, control IN, then each
    /// interface's in order.
    fn endpoint_list(&self) -> (r: Vec<UsbEndpointDescriptor>)
        ensures
            r@ == seq![
                control_endpoint(UsbDirection::Out, self.descriptor.max_packet_size_0),
                control_endpoint(UsbDirection::In, self.descriptor.max_packet_size_0),
            ] + all_endpoints(self.interfaces@),
    {
        let mut endpoints: Vec<UsbEndpointDescriptor> = Vec::new();
        let mps0 = self.descriptor.max_packet_size_0 as u16;
        endpoints.push(
            UsbEndpointDescriptor {
                address: address_from_parts(0, UsbDirection::Out),
                attributes: EndpointType::Control.code(),
                max_packet_size: mps0,
                interval: 0,
            },
        );
        endpoints.push(
            UsbEndpointDescriptor {
                address: address_from_parts(0, UsbDirection::In),
                attributes: EndpointType::Control.code(),
                max_packet_size: mps0,
                interval: 0,
            },
        );
        let ghost head = endpoints@;
        let ghost is = self.interfaces@;
        let mut k: usize = 0;
        while k < self.interfaces.len()
            invariant
                is == self.interfaces@,
                k <= is.len(),
                endpoints@ == head + all_endpoints(is.take(k as int)),
            decreases is.len() - k,
        {
            let iface = &self.interfaces[k];
            let ghost before = endpoints@;
            let mut j: usize = 0;
            while j < iface.endpoints.len()
                invariant
                    j <= iface.endpoints@.len(),
                    endpoints@ == before + iface.endpoints@.take(j as int),
                decreases iface.endpoints@.len() - j,
            {
                endpoints.push(iface.endpoints[j]);
                assert(iface.endpoints@.take(j + 1) == iface.endpoints@.take(j as int).push(
                    iface.endpoints@[j as int],
                ));
                j = j + 1;
            }
            proof {
                assert(iface.endpoints@.take(j as int) == iface.endpoints@);
                assert(is.take(k + 1).drop_last() == is.take(k as int));
                assert(is.take(k + 1).last() == is[k as int]);
            }
            k = k + 1;
        }
        assert(is.take(k as int) == is);
        endpoints
    }

    /// Whether every interface has an endpoint.
    fn interfaces_have_endpoints(&self) -> (r: bool)
        ensures
            r == all_have_endpoints(self.interfaces@),
    {
        let mut k: usize = 0;
        while k < self.interfaces.len()
            invariant
                k <= self.interfaces@.len(),
                forall|i: int| 0 <= i < k ==> (#[trigger] self.interfaces@[i]).endpoints@.len() > 0,
            decreases self.interfaces@.len() - k,
        {
            if self.interfaces[k].endpoints.len() == 0 {
                return false;
            }
            k = k + 1;
        }
        true
    }

    /// Whether every class-specific descriptor fits its length byte.
    fn custom_descriptors_fit(&self) -> (r: bool)
        ensures
            r == customs_fit(self.interfaces@),
    {
        let mut k: usize = 0;
        while k < self.interfaces.len()
            invariant
                k <= self.interfaces@.len(),
                forall|a: int, b: int|
                    0 <= a < k && 0 <= b < self.interfaces@[a].custom_descriptors@.len() ==> (
                    #[trigger] self.interfaces@[a].custom_descriptors@[b]).data@.len() <= MAX_PAYLOAD,
            decreases self.interfaces@.len() - k,
        {
            let customs = &self.interfaces[k].custom_descriptors;
            let mut j: usize = 0;
            while j < customs.len()
                invariant
                    k < self.interfaces@.len(),
                    customs@ == self.interfaces@[k as int].custom_descriptors@,
                    j <= customs@.len(),
                    forall|a: int, b: int|
                        0 <= a < k && 0 <= b < self.interfaces@[a].custom_descriptors@.len() ==> (
                        #[trigger] self.interfaces@[a].custom_descriptors@[b]).data@.len()
                            <= MAX_PAYLOAD,
                    forall|b: int| 0 <= b < j ==> (#[trigger] customs@[b]).data@.len() <= MAX_PAYLOAD,
                decreases customs@.len() - j,
            {
                if customs[j].data.len() > MAX_PAYLOAD {
                    return false;
                }
                j = j + 1;
            }
            k = k + 1;
        }
        true
    }

    /// Whether `build` succeeds: the strings fit a one-byte index, there is
    /// an interface, every interface has an endpoint, and every descriptor
    /// fits its length field.
    pub open spec fn buildable(&self) -> bool {
        &&& string_table(self).len() <= 256
        &&& self.interfaces@.len() > 0
        &&& all_have_endpoints(self.interfaces@)
        &&& customs_fit(self.interfaces@)
        &&& configuration_bytes(self.configuration_desc, self.interfaces@, string_table(self)).len()
            <= MAX_TOTAL_LENGTH
        &&& strings_fit(string_table(self))
    }

    /// Turns the description into descriptor bytes: strings are interned in
    /// their fixed order, the device descriptor names one configuration, the
    /// configuration descriptor holds its length and counts, and the endpoint
    /// list starts with the control endpoint. It is a configuration error to
    /// have no interfaces, an interface without endpoints, a class-specific
    /// descriptor over 253 bytes, a string over 126 UTF-16 units, or a
    /// configuration descriptor over 65535 bytes, or strings that need more
    /// than 256 one-byte indices. At most 255 interfaces are taken, as the
    /// interface count is one byte.
    pub fn build(self) -> (r: Result<DeviceConfig, UsbGenError>)
        requires
            self.interfaces@.len() <= 255,
            forall|k: int|
                0 <= k < self.interfaces@.len() ==> (#[trigger] self.interfaces@[k]).endpoints@.len()
                    <= 255,
        ensures
            match r {
                Err(e) => e == UsbGenError::Configuration && !self.buildable(),
                Ok(c) => {
                    &&& self.buildable()
                    &&& c.device_descriptor@ == tlv(
                        1,
                        device_payload(self.descriptor, 1, string_table(&self)),
                    )
                    &&& c.configuration_descriptor@ == configuration_bytes(
                        self.configuration_desc,
                        self.interfaces@,
                        string_table(&self),
                    )
                    &&& strings_match(string_table(&self), c.string_descriptors@, c.custom_strings@)
                    &&& c.endpoints@ == seq![
                        control_endpoint(UsbDirection::Out, self.descriptor.max_packet_size_0),
                        control_endpoint(UsbDirection::In, self.descriptor.max_packet_size_0),
                    ] + all_endpoints(self.interfaces@)
                },
            },
    {
        if self.interfaces.len() == 0 || !self.interfaces_have_endpoints()
            || !self.custom_descriptors_fit() {
            return Err(UsbGenError::Configuration);
        }
        let table = match self.intern_strings() {
            Ok(t) => t,
            Err(e) => return Err(e),
        };
        proof {
            let ss = device_strings(&self);
            assert(ss[0] == self.descriptor.manufacturer@);
            assert(ss[1] == self.descriptor.product@);
            assert(ss[2] == self.descriptor.serial_number@);
            assert(ss[3] == self.configuration_desc.configuration_string@);
            assert forall|k: int| 0 <= k < self.interfaces@.len() implies table@.contains(
                (#[trigger] self.interfaces@[k]).descriptor.interface_string@,
            ) by {
                assert(ss[4 + k] == self.interfaces@[k].descriptor.interface_string@);
            }
        }
        let mut w = UsbDescriptorWriter::new();
        w.device(&self.descriptor, 1, &table);
        let device_descriptor = w.finish();
        let configuration_descriptor = match self.configuration_descriptor(&table) {
            Ok(v) => v,
            Err(e) => return Err(e),
        };
        let endpoints = self.endpoint_list();
        let (string_descriptors, custom_strings) = match string_descriptors(table) {
            Ok(p) => p,
            Err(e) => return Err(e),
        };
        Ok(
            DeviceConfig {
                device_descriptor,
                configuration_descriptor,
                string_descriptors,
                custom_strings,
                endpoints,
            },
        )
    }
}

/// Where interface `k` starts in a configuration descriptor.
pub open spec fn interface_offset(is: Seq<InterfaceBuilder>, table: Seq<UsbStringView>, k: int) -> int {
    9int + interfaces_bytes(is.take(k), table).len()
}

/// The interfaces before `m` are written first.
proof fn lemma_interfaces_prefix(is: Seq<InterfaceBuilder>, table: Seq<UsbStringView>, m: int)
    requires
        0 <= m <= is.len(),
    ensures
        interfaces_bytes(is.take(m), table).len() <= interfaces_bytes(is, table).len(),
        interfaces_bytes(is.take(m), table) == interfaces_bytes(is, table).take(
            interfaces_bytes(is.take(m), table).len() as int,
        ),
    decreases is.len(),
{
    if m == is.len() {
        assert(is.take(m) == is);
    } else {
        let p = is.drop_last();
        assert(p.take(m) == is.take(m));
        lemma_interfaces_prefix(p, table, m);
    }
}

/// In a configuration descriptor as `build` writes it, the total-length field
/// holds the length of the whole descriptor (when that fits in 16 bits), the
/// interface count holds the number of interfaces, and the interface
/// descriptor of each interface holds its number of endpoints.
#[verifier::rlimit(100)]
pub proof fn lemma_configuration_counts(
    c: UsbConfigurationDescriptor,
    is: Seq<InterfaceBuilder>,
    table: Seq<UsbStringView>,
)
    requires
        is.len() <= 255,
        forall|k: int| 0 <= k < is.len() ==> (#[trigger] is[k]).endpoints@.len() <= 255,
    ensures
        configuration_bytes(c, is, table).len() < 65536 ==> configuration_bytes(c, is, table)[2]
            + 256 * configuration_bytes(c, is, table)[3] == configuration_bytes(c, is, table).len(),
        configuration_bytes(c, is, table)[4] == is.len(),
        forall|k: int|
            0 <= k < is.len() ==> {
                &&& interface_offset(is, table, k) + 9 <= configuration_bytes(c, is, table).len()
                &&& configuration_bytes(c, is, table)[interface_offset(is, table, k) + 1] == 4
                &&& configuration_bytes(c, is, table)[interface_offset(is, table, k) + 4]
                    == (#[trigger] is[k]).endpoints@.len()
            },
{
    lemma_total_length(c, is, table);
    lemma_interface_counts(c, is, table);
}

/// Each interface starts with an interface descriptor holding its endpoint count.
#[verifier::rlimit(100)]
proof fn lemma_interface_counts(
    c: UsbConfigurationDescriptor,
    is: Seq<InterfaceBuilder>,
    table: Seq<UsbStringView>,
)
    requires
        forall|k: int| 0 <= k < is.len() ==> (#[trigger] is[k]).endpoints@.len() <= 255,
    ensures
        forall|k: int|
            0 <= k < is.len() ==> {
                &&& interface_offset(is, table, k) + 9 <= configuration_bytes(c, is, table).len()
                &&& configuration_bytes(c, is, table)[interface_offset(is, table, k) + 1] == 4
                &&& configuration_bytes(c, is, table)[interface_offset(is, table, k) + 4]
                    == (#[trigger] is[k]).endpoints@.len()
            },
{
    assert forall|k: int| 0 <= k < is.len() implies {
        &&& interface_offset(is, table, k) + 9 <= configuration_bytes(c, is, table).len()
        &&& configuration_bytes(c, is, table)[interface_offset(is, table, k) + 1] == 4
        &&& configuration_bytes(c, is, table)[interface_offset(is, table, k) + 4]
            == (#[trigger] is[k]).endpoints@.len()
    } by {
        lemma_interface_count(c, is, table, k);
    }
}

/// The header's length field and interface count.
proof fn lemma_total_length(c: UsbConfigurationDescriptor, is: Seq<InterfaceBuilder>, table: Seq<UsbStringView>)
    requires
        is.len() <= 255,
    ensures
        configuration_bytes(c, is, table).len() < 65536 ==> configuration_bytes(c, is, table)[2]
            + 256 * configuration_bytes(c, is, table)[3] == configuration_bytes(c, is, table).len(),
        configuration_bytes(c, is, table)[4] == is.len(),
{
    let body = interfaces_bytes(is, table);
    let total = 9int + body.len();
    let bytes = configuration_bytes(c, is, table);
    assert(bytes.len() == total);
    assert(bytes[2] == lo(total));
    assert(bytes[3] == hi(total));
    if total < 65536 {
        lemma_lo_hi(total);
    }
}

/// Interface `k` starts with an interface descriptor holding its endpoint count.
proof fn lemma_interface_count(
    c: UsbConfigurationDescriptor,
    is: Seq<InterfaceBuilder>,
    table: Seq<UsbStringView>,
    k: int,
)
    requires
        0 <= k < is.len(),
        is[k].endpoints@.len() <= 255,
    ensures
        interface_offset(is, table, k) + 9 <= configuration_bytes(c, is, table).len(),
        configuration_bytes(c, is, table)[interface_offset(is, table, k) + 1] == 4,
        configuration_bytes(c, is, table)[interface_offset(is, table, k) + 4]
            == is[k].endpoints@.len(),
{
    let body = interfaces_bytes(is, table);
    let bytes = configuration_bytes(c, is, table);
    lemma_interfaces_prefix(is, table, k + 1);
    let before = interfaces_bytes(is.take(k), table);
    assert(is.take(k + 1).drop_last() == is.take(k));
    assert(is.take(k + 1).last() == is[k]);
    let upto = interfaces_bytes(is.take(k + 1), table);
    assert(upto == before + interface_bytes(is[k], table));
    let o = before.len() as int;
    assert(upto[o + 1] == 4);
    assert(body[o + 1] == upto[o + 1]);
    assert(body[o + 4] == upto[o + 4]);
    assert(bytes[9 + o + 1] == body[o + 1]);
    assert(bytes[9 + o + 4] == body[o + 4]);
}

/// For any configuration that `build` writes (it refuses one over 65535
/// bytes), the total-length field holds the exact length; the counts are
/// those of `lemma_configuration_counts`.
pub proof fn lemma_built_total_length(
    c: UsbConfigurationDescriptor,
    is: Seq<InterfaceBuilder>,
    table: Seq<UsbStringView>,
)
    requires
        is.len() <= 255,
        configuration_bytes(c, is, table).len() <= MAX_TOTAL_LENGTH,
    ensures
        configuration_bytes(c, is, table)[2] + 256 * configuration_bytes(c, is, table)[3]
            == configuration_bytes(c, is, table).len(),
{
    lemma_total_length(c, is, table);
}

} // verus!
