use vstd::prelude::*;

verus! {

/// Maximum number of endpoints in one direction, as the USB specification sets it.
pub const USB_MAX_ENDPOINTS: usize = 16;

/// The longest payload a descriptor can have: its length byte counts the
/// payload and the two header bytes.
pub const MAX_PAYLOAD: usize = 253;

/// The most UTF-16 code units a string descriptor can hold.
pub const MAX_STRING_UNITS: usize = 126;

/// Standard descriptor types.
#[derive(Clone, Copy, Debug, PartialEq, Eq, Structural)]
pub enum UsbDescriptorType {
    Device,
    Configuration,
    String,
    Interface,
    Endpoint,
}

pub open spec fn descriptor_type_code(t: UsbDescriptorType) -> u8 {
    match t {
        UsbDescriptorType::Device => 1,
        UsbDescriptorType::Configuration => 2,
        UsbDescriptorType::String => 3,
        UsbDescriptorType::Interface => 4,
        UsbDescriptorType::Endpoint => 5,
    }
}

impl UsbDescriptorType {
    /// The bDescriptorType byte of this descriptor type.
    pub fn code(&self) -> (r: u8)
        ensures
            r == descriptor_type_code(*self),
    {
        match self {
            UsbDescriptorType::Device => 1,
            UsbDescriptorType::Configuration => 2,
            UsbDescriptorType::String => 3,
            UsbDescriptorType::Interface => 4,
            UsbDescriptorType::Endpoint => 5,
        }
    }
}

/// A reference to a string descriptor: unset, a literal text, or a string
/// that the firmware supplies at run time under an opaque id.
#[derive(Clone, Debug)]
pub enum UsbString {
    Unset,
    Const(String),
    Custom(usize),
}

impl PartialEq for UsbString {
    fn eq(&self, other: &UsbString) -> (r: bool) {
        match self {
            UsbString::Unset => other.is_unset(),
            UsbString::Const(a) => match other {
                UsbString::Const(b) => *a == *b,
                _ => false,
            },
            UsbString::Custom(a) => match other {
                UsbString::Custom(b) => *a == *b,
                _ => false,
            },
        }
    }
}

impl vstd::std_specs::cmp::PartialEqSpecImpl for UsbString {
    open spec fn obeys_eq_spec() -> bool {
        true
    }

    open spec fn eq_spec(&self, other: &UsbString) -> bool {
        self@ == other@
    }
}

/// What a `UsbString` denotes: the text of a literal as characters.
pub enum UsbStringView {
    Unset,
    Const(Seq<char>),
    Custom(usize),
}

impl View for UsbString {
    type V = UsbStringView;

    open spec fn view(&self) -> UsbStringView {
        match self {
            UsbString::Unset => UsbStringView::Unset,
            UsbString::Const(s) => UsbStringView::Const(s@),
            UsbString::Custom(id) => UsbStringView::Custom(*id),
        }
    }
}

impl UsbString {
    /// Whether this is `UsbString::Unset`.
    pub fn is_unset(&self) -> (r: bool)
        ensures
            r == (self@ == UsbStringView::Unset),
    {
        match self {
            UsbString::Unset => true,
            _ => false,
        }
    }

    /// A copy of this reference.
    pub fn duplicate(&self) -> (r: UsbString)
        ensures
            r@ == self@,
    {
        match self {
            UsbString::Unset => UsbString::Unset,
            UsbString::Const(s) => UsbString::Const(s.clone()),
            UsbString::Custom(id) => UsbString::Custom(*id),
        }
    }
}

/// A descriptor of the device as a whole.
#[derive(Clone, Debug)]
pub struct UsbDeviceDescriptor {
    pub device_class: u8,
    pub device_sub_class: u8,
    pub device_protocol: u8,
    pub max_packet_size_0: u8,
    pub vendor_id: u16,
    pub product_id: u16,
    pub device_release: u16,
    pub manufacturer: UsbString,
    pub product: UsbString,
    pub serial_number: UsbString,
}

/// A configuration descriptor, less the fields that are counted at write time.
#[derive(Clone, Debug)]
pub struct UsbConfigurationDescriptor {
    pub configuration_value: u8,
    pub configuration_string: UsbString,
    pub attributes: u8,
    pub max_power: u8,
}

/// An interface descriptor, less its endpoint count.
#[derive(Clone, Debug)]
pub struct UsbInterfaceDescriptor {
    pub interface_number: u8,
    pub alternate_setting: u8,
    pub interface_class: u8,
    pub interface_sub_class: u8,
    pub interface_protocol: u8,
    pub interface_string: UsbString,
}

/// An endpoint descriptor; `address` is the bEndpointAddress byte
/// (index in bits 0..4, bit 7 set for IN).
#[derive(Clone, Copy, Debug, PartialEq, Eq, Structural)]
pub struct UsbEndpointDescriptor {
    pub address: u8,
    pub attributes: u8,
    pub max_packet_size: u16,
    pub interval: u8,
}

/// A class- or vendor-specific descriptor, written out as it is.
#[derive(Clone, Debug)]
pub struct UsbCustomDescriptor {
    pub descriptor_type: u8,
    pub data: Vec<u8>,
}

/// A string table: index 0 holds `Unset`, and no value occurs twice.
pub open spec fn table_wf(strings: Seq<UsbStringView>) -> bool {
    &&& 1 <= strings.len() <= 256
    &&& strings[0] == UsbStringView::Unset
    &&& forall|i: int, j: int|
        0 <= i < j < strings.len() ==> #[trigger] strings[i] != #[trigger] strings[j]
}

/// The table after interning `s`, and the index that `s` got.
pub open spec fn interned(strings: Seq<UsbStringView>, s: UsbStringView) -> (Seq<UsbStringView>, int) {
    if strings.contains(s) {
        (strings, strings.index_of(s))
    } else {
        (strings.push(s), strings.len() as int)
    }
}

/// Registry of string descriptors: each distinct value gets the next index,
/// and index 0 is kept for `UsbString::Unset`.
pub struct UsbStringAllocator {
    strings: Vec<UsbString>,
}

impl View for UsbStringAllocator {
    type V = Seq<UsbStringView>;

    closed spec fn view(&self) -> Seq<UsbStringView> {
        self.strings@.map_values(|s: UsbString| s@)
    }
}

impl UsbStringAllocator {
    pub open spec fn wf(&self) -> bool {
        table_wf(self@)
    }

    /// A table that holds only the reserved entry 0.
    pub fn new() -> (r: Self)
        ensures
            r@ == seq![UsbStringView::Unset],
            r.wf(),
    {
        let mut strings: Vec<UsbString> = Vec::new();
        strings.push(UsbString::Unset);
        Self { strings }
    }

    /// The number of entries, the reserved one included.
    pub fn len(&self) -> (r: usize)
        ensures
            r == self@.len(),
    {
        self.strings.len()
    }

    /// The index of `string`, appending it first when it is not yet present.
    pub fn intern(&mut self, string: &UsbString) -> (r: u8)
        requires
            old(self).wf(),
            old(self)@.len() < 256 || old(self)@.contains(string@),
        ensures
            final(self).wf(),
            final(self)@ == interned(old(self)@, string@).0,
            r as int == interned(old(self)@, string@).1,
            final(self)@[r as int] == string@,
    {
        match self.get_index(string) {
            Some(index) => index,
            None => {
                let index = self.strings.len() as u8;
                let copy = string.duplicate();
                self.strings.push(copy);
                proof {
                    let t = old(self)@;
                    assert(self@ =~= t.push(string@));
                    assert(!t.contains(string@));
                    assert forall|i: int, j: int|
                        0 <= i < j < self@.len() implies #[trigger] self@[i]
                        != #[trigger] self@[j] by {
                        if j == t.len() {
                            assert(self@[i] == t[i]);
                        }
                    }
                }
                index
            },
        }
    }

    /// The index of `string`, if it is in the table.
    pub fn get_index(&self, string: &UsbString) -> (r: Option<u8>)
        requires
            self.wf(),
        ensures
            r.is_some() == self@.contains(string@),
            r.is_some() ==> r.unwrap() as int == self@.index_of(string@),
            r.is_some() ==> self@[r.unwrap() as int] == string@,
    {
        let mut i: usize = 0;
        proof {
            assert forall|k: int| 0 <= k < self@.len() implies #[trigger] self@[k]
                == self.strings@[k]@ by {}
        }
        while i < self.strings.len()
            invariant
                self.wf(),
                i <= self@.len(),
                forall|k: int| 0 <= k < i ==> self@[k] != string@,
                self@.len() == self.strings@.len(),
                forall|k: int| 0 <= k < self@.len() ==> #[trigger] self@[k] == self.strings@[k]@,
            decreases self@.len() - i,
        {
            if self.strings[i] == *string {
                proof {
                    assert(self@[i as int] == string@);
                    assert(self@.contains(string@));
                    let j = self@.index_of(string@);
                    assert(self@[j] == string@);
                    if j != i as int {
                        assert(j > i);
                    }
                }
                return Some(i as u8);
            }
            i = i + 1;
        }
        None
    }

    /// The table's entries in index order.
    pub fn into_inner(self) -> (r: Vec<UsbString>)
        ensures
            r@.map_values(|s: UsbString| s@) == self@,
    {
        self.strings
    }
}

/// Interning is idempotent: interning a value a second time leaves the table
/// as the first time left it and gives the same index; `Unset` always has index 0.
pub proof fn lemma_intern_idempotent(strings: Seq<UsbStringView>, s: UsbStringView)
    requires
        table_wf(strings),
        strings.len() < 256 || strings.contains(s),
    ensures
        interned(interned(strings, s).0, s) == interned(strings, s),
        interned(strings, UsbStringView::Unset) == (strings, 0int),
{
    let t = interned(strings, s).0;
    assert(t.contains(s)) by {
        if !strings.contains(s) {
            assert(t[strings.len() as int] == s);
        }
    }
    if !strings.contains(s) {
        assert(t[strings.len() as int] == s);
        let k = t.index_of(s);
        assert(t[k] == s);
        if k < strings.len() {
            assert(strings[k] == s);
        }
    }
    lemma_unset_at_zero(strings);
}

/// In a well-formed table `Unset` is found at index 0.
proof fn lemma_unset_at_zero(strings: Seq<UsbStringView>)
    requires
        table_wf(strings),
    ensures
        strings.contains(UsbStringView::Unset),
        strings.index_of(UsbStringView::Unset) == 0,
{
    assert(strings[0] == UsbStringView::Unset);
    let k = strings.index_of(UsbStringView::Unset);
    assert(strings[k] == UsbStringView::Unset);
    if k != 0 {
        assert(strings[0] != strings[k]);
    }
}

/// The low byte of `v`, wrapping.
pub open spec fn lo(v: int) -> u8 {
    (v % 256) as u8
}

/// The second byte of `v`, wrapping.
pub open spec fn hi(v: int) -> u8 {
    ((v / 256) % 256) as u8
}

/// The bytes `lo(v)` and `hi(v)` put `v` back together below 65536.
pub(crate) proof fn lemma_lo_hi(v: int)
    requires
        0 <= v < 65536,
    ensures
        lo(v) + 256 * hi(v) == v,
{
    assert((v % 256) + 256 * ((v / 256) % 256) == v) by (nonlinear_arith)
        requires
            0 <= v < 65536,
    ;
}

/// A descriptor: its length byte (payload plus two), its type, its payload.
pub open spec fn tlv(descriptor_type: u8, payload: Seq<u8>) -> Seq<u8> {
    seq![(payload.len() + 2) as u8, descriptor_type] + payload
}

/// The index that a string table gives a string reference.
pub open spec fn string_index(table: Seq<UsbStringView>, s: UsbStringView) -> u8 {
    table.index_of(s) as u8
}

pub open spec fn device_payload(d: UsbDeviceDescriptor, n: u8, table: Seq<UsbStringView>) -> Seq<
    u8,
> {
    seq![
        0x00,
        0x02,
        d.device_class,
        d.device_sub_class,
        d.device_protocol,
        d.max_packet_size_0,
        lo(d.vendor_id as int),
        hi(d.vendor_id as int),
        lo(d.product_id as int),
        hi(d.product_id as int),
        lo(d.device_release as int),
        hi(d.device_release as int),
        string_index(table, d.manufacturer@),
        string_index(table, d.product@),
        string_index(table, d.serial_number@),
        n,
    ]
}

/// The configuration header's payload, with its total length and interface
/// count still zero.
pub open spec fn configuration_payload(c: UsbConfigurationDescriptor, table: Seq<UsbStringView>) -> Seq<
    u8,
> {
    seq![
        0,
        0,
        0,
        c.configuration_value,
        string_index(table, c.configuration_string@),
        c.attributes,
        c.max_power,
    ]
}

/// The interface header's payload, with its endpoint count still zero.
pub open spec fn interface_payload(i: UsbInterfaceDescriptor, table: Seq<UsbStringView>) -> Seq<u8> {
    seq![
        i.interface_number,
        i.alternate_setting,
        0,
        i.interface_class,
        i.interface_sub_class,
        i.interface_protocol,
        string_index(table, i.interface_string@),
    ]
}

pub open spec fn endpoint_payload(e: UsbEndpointDescriptor) -> Seq<u8> {
    seq![
        e.address,
        e.attributes,
        lo(e.max_packet_size as int),
        hi(e.max_packet_size as int),
        e.interval,
    ]
}

/// `buf` with the total-length field of the configuration that starts at
/// `start` set to the number of bytes from there to the end.
pub open spec fn patch_length(buf: Seq<u8>, start: Option<usize>) -> Seq<u8> {
    match start {
        None => buf,
        Some(o) => {
            let length = buf.len() - o;
            buf.update(o + 2, lo(length)).update(o + 3, hi(length))
        },
    }
}

/// Writes descriptors one after another into a byte buffer, and fills in the
/// length and count fields of the open configuration and interface as it goes.
pub struct UsbDescriptorWriter {
    buf: Vec<u8>,
    configuration_offset: Option<usize>,
    num_interfaces_mark: Option<usize>,
    num_endpoints_mark: Option<usize>,
    interfaces_written: Ghost<nat>,
    endpoints_written: Ghost<nat>,
}

impl UsbDescriptorWriter {
    /// The bytes written so far.
    pub closed spec fn bytes(&self) -> Seq<u8> {
        self.buf@
    }

    /// Where the open configuration descriptor starts.
    pub closed spec fn config_start(&self) -> Option<usize> {
        self.configuration_offset
    }

    /// Where the open configuration's interface count is.
    pub closed spec fn interfaces_mark(&self) -> Option<usize> {
        self.num_interfaces_mark
    }

    /// Where the open interface's endpoint count is.
    pub closed spec fn endpoints_mark(&self) -> Option<usize> {
        self.num_endpoints_mark
    }

    /// Interfaces written since the open configuration began.
    pub closed spec fn interfaces_counted(&self) -> nat {
        self.interfaces_written@
    }

    /// Endpoints written since the open interface began.
    pub closed spec fn endpoints_counted(&self) -> nat {
        self.endpoints_written@
    }

    /// The marks point into the buffer, the interface count comes before the
    /// endpoint count, and each count byte holds what has been counted.
    pub open spec fn wf(&self) -> bool {
        &&& self.config_start() matches Some(o) ==> o + 9 <= self.bytes().len()
            && self.interfaces_mark() == Some((o + 4) as usize)
        &&& self.config_start() is None ==> self.interfaces_mark() is None
        &&& self.endpoints_mark() matches Some(m) ==> m < self.bytes().len()
        &&& self.interfaces_mark() matches Some(m) ==> self.bytes()[m as int] == self.interfaces_counted()
        &&& self.endpoints_mark() matches Some(e) ==> {
            &&& self.bytes()[e as int] == self.endpoints_counted()
            &&& self.interfaces_mark() matches Some(m) && m < e
        }
    }

    pub fn new() -> (r: Self)
        ensures
            r.wf(),
            r.bytes() == Seq::<u8>::empty(),
            r.config_start() is None,
            r.endpoints_mark() is None,
            r.interfaces_counted() == 0,
            r.endpoints_counted() == 0,
    {
        Self {
            buf: Vec::new(),
            configuration_offset: None,
            num_interfaces_mark: None,
            num_endpoints_mark: None,
            interfaces_written: Ghost(0),
            endpoints_written: Ghost(0),
        }
    }

    /// Appends one descriptor: length byte, type byte, payload.
    pub fn write(&mut self, descriptor_type: u8, descriptor: &[u8])
        requires
            old(self).wf(),
            descriptor@.len() <= MAX_PAYLOAD,
        ensures
            final(self).wf(),
            final(self).bytes() == old(self).bytes() + tlv(descriptor_type, descriptor@),
            final(self).config_start() == old(self).config_start(),
            final(self).interfaces_mark() == old(self).interfaces_mark(),
            final(self).endpoints_mark() == old(self).endpoints_mark(),
            final(self).interfaces_counted() == old(self).interfaces_counted(),
            final(self).endpoints_counted() == old(self).endpoints_counted(),
    {
        let length = descriptor.len();
        let length_byte = (length + 2) as u8;
        self.buf.push(length_byte);
        self.buf.push(descriptor_type);
        let ghost start = self.buf@;
        let mut i: usize = 0;
        while i < length
            invariant
                i <= length == descriptor@.len(),
                start.len() == old(self).bytes().len() + 2,
                self.buf@ == start + descriptor@.subrange(0, i as int),
                self.configuration_offset == old(self).config_start(),
                self.num_interfaces_mark == old(self).interfaces_mark(),
                self.num_endpoints_mark == old(self).endpoints_mark(),
                self.interfaces_written == old(self).interfaces_written,
                self.endpoints_written == old(self).endpoints_written,
                old(self).wf(),
            decreases length - i,
        {
            self.buf.push(descriptor[i]);
            assert(descriptor@.subrange(0, i + 1) == descriptor@.subrange(0, i as int).push(
                descriptor@[i as int],
            ));
            i = i + 1;
        }
        proof {
            assert(descriptor@.subrange(0, length as int) == descriptor@);
            assert((descriptor@.len() + 2) as u8 == length_byte);
            assert(self.buf@ == old(self).bytes() + tlv(descriptor_type, descriptor@));
            if let Some(m) = self.num_interfaces_mark {
                assert(self.buf@[m as int] == old(self).bytes()[m as int]);
            }
            if let Some(e) = self.num_endpoints_mark {
                assert(self.buf@[e as int] == old(self).bytes()[e as int]);
            }
        }
    }

    /// The number of bytes written so far.
    pub fn position(&self) -> (r: usize)
        ensures
            r == self.bytes().len(),
    {
        self.buf.len()
    }

    /// Appends a class- or vendor-specific descriptor as it is.
    pub fn custom_descriptor(&mut self, descriptor: &UsbCustomDescriptor)
        requires
            old(self).wf(),
            descriptor.data@.len() <= MAX_PAYLOAD,
        ensures
            final(self).wf(),
            final(self).bytes() == old(self).bytes() + tlv(
                descriptor.descriptor_type,
                descriptor.data@,
            ),
            final(self).config_start() == old(self).config_start(),
            final(self).interfaces_mark() == old(self).interfaces_mark(),
            final(self).endpoints_mark() == old(self).endpoints_mark(),
            final(self).interfaces_counted() == old(self).interfaces_counted(),
            final(self).endpoints_counted() == old(self).endpoints_counted(),
    {
        self.write(descriptor.descriptor_type, descriptor.data.as_slice());
    }

    /// Appends the device descriptor, with string indices from `alloc`.
    pub fn device(
        &mut self,
        device: &UsbDeviceDescriptor,
        num_configurations: u8,
        alloc: &UsbStringAllocator,
    )
        requires
            old(self).wf(),
            alloc.wf(),
            alloc@.contains(device.manufacturer@),
            alloc@.contains(device.product@),
            alloc@.contains(device.serial_number@),
        ensures
            final(self).wf(),
            final(self).bytes() == old(self).bytes() + tlv(
                1,
                device_payload(*device, num_configurations, alloc@),
            ),
            final(self).config_start() == old(self).config_start(),
            final(self).interfaces_mark() == old(self).interfaces_mark(),
            final(self).endpoints_mark() == old(self).endpoints_mark(),
            final(self).interfaces_counted() == old(self).interfaces_counted(),
            final(self).endpoints_counted() == old(self).endpoints_counted(),
    {
        let payload: [u8; 16] = [
            0x00,
            0x02,
            device.device_class,
            device.device_sub_class,
            device.device_protocol,
            device.max_packet_size_0,
            (device.vendor_id % 256) as u8,
            (device.vendor_id / 256) as u8,
            (device.product_id % 256) as u8,
            (device.product_id / 256) as u8,
            (device.device_release % 256) as u8,
            (device.device_release / 256) as u8,
            interned_index(alloc, &device.manufacturer),
            interned_index(alloc, &device.product),
            interned_index(alloc, &device.serial_number),
            num_configurations,
        ];
        assert(payload@ == device_payload(*device, num_configurations, alloc@));
        self.write(UsbDescriptorType::Device.code(), &payload);
    }

    /// Closes the open configuration, if any, and starts a new one whose total
    /// length and interface count are filled in later.
    pub fn configuration(&mut self, conf: &UsbConfigurationDescriptor, alloc: &UsbStringAllocator)
        requires
            old(self).wf(),
            alloc.wf(),
            alloc@.contains(conf.configuration_string@),
        ensures
            final(self).wf(),
            final(self).bytes() == patch_length(old(self).bytes(), old(self).config_start())
                + tlv(2, configuration_payload(*conf, alloc@)),
            final(self).config_start() is Some,
            final(self).config_start().unwrap() == old(self).bytes().len(),
            final(self).interfaces_mark() is Some,
            final(self).interfaces_mark().unwrap() == old(self).bytes().len() + 4,
            final(self).endpoints_mark() is None,
            final(self).interfaces_counted() == 0,
            final(self).endpoints_counted() == 0,
    {
        self.update_configuration_length();
        let start = self.position();
        let payload: [u8; 7] = [
            0,
            0,
            0,
            conf.configuration_value,
            interned_index(alloc, &conf.configuration_string),
            conf.attributes,
            conf.max_power,
        ];
        assert(payload@ == configuration_payload(*conf, alloc@));
        self.write(UsbDescriptorType::Configuration.code(), &payload);
        let end = self.position();
        assert(start + 9 == end);
        self.configuration_offset = Some(start);
        self.num_interfaces_mark = Some(start + 4);
        self.num_endpoints_mark = None;
        self.interfaces_written = Ghost(0);
        self.endpoints_written = Ghost(0);
    }

    /// Sets the open configuration's total-length field to the bytes written since it began.
    fn update_configuration_length(&mut self)
        requires
            old(self).wf(),
        ensures
            final(self).wf(),
            final(self).bytes() == patch_length(old(self).bytes(), old(self).config_start()),
            final(self).config_start() == old(self).config_start(),
            final(self).interfaces_mark() == old(self).interfaces_mark(),
            final(self).endpoints_mark() == old(self).endpoints_mark(),
            final(self).interfaces_counted() == old(self).interfaces_counted(),
            final(self).endpoints_counted() == old(self).endpoints_counted(),
    {
        if let Some(offset) = self.configuration_offset {
            let length = self.buf.len() - offset;
            self.buf.set(offset + 2, (length % 256) as u8);
            self.buf.set(offset + 3, ((length / 256) % 256) as u8);
        }
    }

    /// Appends an interface descriptor and counts it in the open configuration.
    pub fn interface(&mut self, interface: &UsbInterfaceDescriptor, alloc: &UsbStringAllocator)
        requires
            old(self).wf(),
            alloc.wf(),
            alloc@.contains(interface.interface_string@),
            old(self).interfaces_mark() is Some,
            old(self).interfaces_counted() < 255,
        ensures
            final(self).wf(),
            final(self).bytes() == old(self).bytes().update(
                old(self).interfaces_mark().unwrap() as int,
                (old(self).bytes()[old(self).interfaces_mark().unwrap() as int] + 1) as u8,
            ) + tlv(4, interface_payload(*interface, alloc@)),
            final(self).config_start() == old(self).config_start(),
            final(self).interfaces_mark() == old(self).interfaces_mark(),
            final(self).endpoints_mark() is Some,
            final(self).endpoints_mark().unwrap() == old(self).bytes().len() + 4,
            final(self).interfaces_counted() == old(self).interfaces_counted() + 1,
            final(self).endpoints_counted() == 0,
    {
        let mark = match self.num_interfaces_mark {
            Some(m) => m,
            None => 0,
        };
        let count = self.buf[mark];
        self.buf.set(mark, count + 1);
        self.interfaces_written = Ghost(self.interfaces_written@ + 1);
        let start = self.position();
        let payload: [u8; 7] = [
            interface.interface_number,
            interface.alternate_setting,
            0,
            interface.interface_class,
            interface.interface_sub_class,
            interface.interface_protocol,
            interned_index(alloc, &interface.interface_string),
        ];
        assert(payload@ == interface_payload(*interface, alloc@));
        self.write(UsbDescriptorType::Interface.code(), &payload);
        let end = self.position();
        assert(start + 9 == end);
        self.num_endpoints_mark = Some(start + 4);
        self.endpoints_written = Ghost(0);
    }

    /// Appends an endpoint descriptor and counts it in the open interface.
    pub fn endpoint(&mut self, endpoint: &UsbEndpointDescriptor)
        requires
            old(self).wf(),
            old(self).endpoints_mark() is Some,
            old(self).endpoints_counted() < 255,
        ensures
            final(self).wf(),
            final(self).bytes() == old(self).bytes().update(
                old(self).endpoints_mark().unwrap() as int,
                (old(self).bytes()[old(self).endpoints_mark().unwrap() as int] + 1) as u8,
            ) + tlv(5, endpoint_payload(*endpoint)),
            final(self).config_start() == old(self).config_start(),
            final(self).interfaces_mark() == old(self).interfaces_mark(),
            final(self).endpoints_mark() == old(self).endpoints_mark(),
            final(self).interfaces_counted() == old(self).interfaces_counted(),
            final(self).endpoints_counted() == old(self).endpoints_counted() + 1,
    {
        let mark = match self.num_endpoints_mark {
            Some(m) => m,
            None => 0,
        };
        let count = self.buf[mark];
        self.buf.set(mark, count + 1);
        let mps = endpoint.max_packet_size;
        let payload: [u8; 5] = [
            endpoint.address,
            endpoint.attributes,
            (mps % 256) as u8,
            (mps / 256) as u8,
            endpoint.interval,
        ];
        assert(payload@ == endpoint_payload(*endpoint));
        self.endpoints_written = Ghost(self.endpoints_written@ + 1);
        self.write(UsbDescriptorType::Endpoint.code(), &payload);
    }

    /// Appends a string descriptor holding `string` as UTF-16LE.
    pub fn string(&mut self, string: &str)
        requires
            old(self).wf(),
            utf16_of(string@).len() <= MAX_STRING_UNITS,
        ensures
            final(self).wf(),
            final(self).bytes() == old(self).bytes() + tlv(3, utf16le(utf16_of(string@))),
            final(self).config_start() == old(self).config_start(),
            final(self).interfaces_mark() == old(self).interfaces_mark(),
            final(self).endpoints_mark() == old(self).endpoints_mark(),
            final(self).interfaces_counted() == old(self).interfaces_counted(),
            final(self).endpoints_counted() == old(self).endpoints_counted(),
    {
        let units = utf16_units(string);
        self.utf16_string(&units);
    }

    /// Appends a string descriptor whose text is given as UTF-16 code units.
    pub(crate) fn utf16_string(&mut self, units: &Vec<u16>)
        requires
            old(self).wf(),
            units@.len() <= MAX_STRING_UNITS,
        ensures
            final(self).wf(),
            final(self).bytes() == old(self).bytes() + tlv(3, utf16le(units@)),
            final(self).config_start() == old(self).config_start(),
            final(self).interfaces_mark() == old(self).interfaces_mark(),
            final(self).endpoints_mark() == old(self).endpoints_mark(),
            final(self).interfaces_counted() == old(self).interfaces_counted(),
            final(self).endpoints_counted() == old(self).endpoints_counted(),
    {
        let mut payload: Vec<u8> = Vec::new();
        let mut i: usize = 0;
        while i < units.len()
            invariant
                i <= units@.len(),
                payload@ == utf16le(units@.subrange(0, i as int)),
                payload@.len() == 2 * i,
                units@.len() <= MAX_STRING_UNITS,
            decreases units@.len() - i,
        {
            let c = units[i];
            payload.push((c % 256) as u8);
            payload.push((c / 256) as u8);
            assert(units@.subrange(0, i + 1).drop_last() == units@.subrange(0, i as int));
            i = i + 1;
        }
        assert(units@.subrange(0, units@.len() as int) == units@);
        self.write(UsbDescriptorType::String.code(), payload.as_slice());
    }

    /// Closes the open configuration and hands back the bytes. Whatever
    /// sequence of calls came before, the open configuration's total-length
    /// field holds its length (when that fits in 16 bits), its interface
    /// count holds the interfaces written since it began, and the open
    /// interface's endpoint count holds the endpoints written since that began.
    pub fn finish(self) -> (r: Vec<u8>)
        requires
            self.wf(),
        ensures
            r@ == patch_length(self.bytes(), self.config_start()),
            r@.len() == self.bytes().len(),
            self.config_start() matches Some(o) ==> {
                &&& r@[o + 4] == self.interfaces_counted()
                &&& r@.len() - o < 65536 ==> r@[o + 2] + 256 * r@[o + 3] == r@.len() - o
            },
            self.endpoints_mark() matches Some(e) ==> r@[e as int] == self.endpoints_counted(),
    {
        let mut w = self;
        w.update_configuration_length();
        let total = w.buf.len();
        proof {
            assert(total == self.bytes().len());
            if let Some(o) = self.config_start() {
                assert(w.buf@[o + 4] == self.bytes()[o + 4]);
                assert(self.interfaces_mark() == Some((o + 4) as usize));
                assert(((o + 4) as usize) as int == o + 4);
                let length = self.bytes().len() - o;
                assert(w.buf@[o + 2] == lo(length));
                assert(w.buf@[o + 3] == hi(length));
                assert(lo(length) as int == length % 256);
                assert(hi(length) as int == (length / 256) % 256);
                if length < 65536 {
                    lemma_lo_hi(length);
                }
            }
        }
        w.buf
    }
}

/// The index of a string that the table holds.
fn interned_index(alloc: &UsbStringAllocator, s: &UsbString) -> (r: u8)
    requires
        alloc.wf(),
        alloc@.contains(s@),
    ensures
        r == string_index(alloc@, s@),
{
    match alloc.get_index(s) {
        Some(i) => i,
        None => 0,
    }
}

/// The UTF-16 code units of one character.
pub open spec fn utf16_of_char(c: char) -> Seq<u16> {
    let v = c as int;
    if v < 0x10000 {
        seq![v as u16]
    } else {
        seq![(0xD800 + (v - 0x10000) / 0x400) as u16, (0xDC00 + (v - 0x10000) % 0x400) as u16]
    }
}

/// The UTF-16 encoding of a text.
pub open spec fn utf16_of(s: Seq<char>) -> Seq<u16>
    decreases s.len(),
{
    if s.len() == 0 {
        Seq::empty()
    } else {
        utf16_of(s.drop_last()) + utf16_of_char(s.last())
    }
}

/// Code units as little-endian bytes.
pub open spec fn utf16le(units: Seq<u16>) -> Seq<u8>
    decreases units.len(),
{
    if units.len() == 0 {
        Seq::empty()
    } else {
        utf16le(units.drop_last()) + seq![lo(units.last() as int), hi(units.last() as int)]
    }
}

/// Relies on `str::encode_utf16`: the UTF-16 encoding of the text, one
/// unit per character below U+10000 and a surrogate pair for the others.
#[verifier::external_body]
pub(crate) fn utf16_units(s: &str) -> (r: Vec<u16>)
    ensures
        r@ == utf16_of(s@),
{
    s.encode_utf16().collect()
}

/// Relies on `usb_device::descriptor::lang_id::ENGLISH_US`: the language id
/// of US English, 0x0409.
#[verifier::external_body]
pub(crate) fn english_us() -> (r: u16)
    ensures
        r == 0x0409,
{
    usb_device::descriptor::lang_id::ENGLISH_US
}

} // verus!
