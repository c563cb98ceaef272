use vstd::prelude::*;
use crate::address::{EndpointType, UsbDirection};
use crate::builder::{DeviceBuilder, EndpointBuilder};
use crate::usb::UsbEndpointDescriptor;
use crate::EndpointInfo;
use crate::error::UsbGenError;
use crate::usb::USB_MAX_ENDPOINTS;

verus! {

/// Number of hardware endpoint slots of the peripheral.
pub const DEVICE_ENDPOINT_COUNT: usize = 8;

/// Size in bytes of the packet memory that holds the buffer-descriptor table
/// and the endpoint buffers.
pub const ENDPOINT_MEMORY_SIZE: u16 = 512;

/// Size in bytes of one buffer-descriptor-table entry.
pub const BUFFER_DESCRIPTOR_SIZE: u16 = 8;

/// `n` rounded up to an even number.
pub open spec fn round_even(n: int) -> int {
    n + n % 2
}

/// The receive-buffer size for a maximum packet size, and the size-class
/// bits of the receive count word; `None` above 1024 bytes.
pub open spec fn rx_size_class(size: int) -> Option<(int, int)> {
    if 0 <= size <= 62 {
        let s = round_even(size);
        Some((s, (s / 2) * 1024))
    } else if 62 < size <= 1024 {
        let s = ((size + 31) / 32) * 32;
        Some((s, 0x8000 + (s / 32 - 1) * 1024))
    } else {
        None
    }
}

/// Buffer size and receive count bits for a receive buffer of
/// `size` bytes: in units of 2 bytes up to 62, in units of 32 bytes (with the
/// top bit set) up to 1024.
pub fn calculate_count_rx(size: u16) -> (r: Result<(u16, u16), UsbGenError>)
    ensures
        match rx_size_class(size as int) {
            Some((s, bits)) => r == Ok::<(u16, u16), UsbGenError>((s as u16, bits as u16)),
            None => r == Err::<(u16, u16), UsbGenError>(UsbGenError::Configuration),
        },
        r matches Ok((s, _)) ==> size <= s && s as int == rx_size_class(size as int).unwrap().0,
{
    if size <= 62 {
        let s = size + size % 2;
        Ok((s, (s / 2) * 1024))
    } else if size <= 1024 {
        let s = (size + 31) / 32 * 32;
        Ok((s, 0x8000 + (s / 32 - 1) * 1024))
    } else {
        Err(UsbGenError::Configuration)
    }
}

/// A region of packet memory.
#[derive(Clone, Copy, Debug, PartialEq, Eq, Structural)]
pub struct EndpointMemoryAllocation {
    pub address: u16,
    pub size: u16,
}

/// One hardware endpoint slot: an address index shared by an IN and an OUT
/// half, or one direction with two buffers. `buffer0` is the transmit (or
/// first) buffer, `buffer1` the receive (or second) one.
#[derive(Clone, Copy, Debug, PartialEq, Eq, Structural)]
pub struct EndpointAllocation {
    pub address_index: u8,
    pub ep_type: EndpointType,
    pub tx_enabled: bool,
    pub rx_enabled: bool,
    pub double_buffered: bool,
    pub buffer_descriptor: EndpointMemoryAllocation,
    pub buffer0: Option<EndpointMemoryAllocation>,
    pub buffer1: Option<EndpointMemoryAllocation>,
}

/// Whether a single-buffered receiving slot has a receive buffer whose size
/// is one that the size classes give.
pub open spec fn rx_ready(s: EndpointAllocation) -> bool {
    s.rx_enabled && !s.double_buffered ==> (s.buffer1 matches Some(m) && is_rx_size(m.size as int))
}

/// Whether `n` is a receive-buffer size that the size classes give.
pub open spec fn is_rx_size(n: int) -> bool {
    rx_size_class(n) matches Some((sz, _)) && sz == n
}

/// A receive-buffer size that the size classes give is left as it is.
proof fn lemma_rx_size_idempotent(n: int)
    requires
        0 <= n <= 1024,
    ensures
        rx_size_class(n) is Some,
        rx_size_class(rx_size_class(n).unwrap().0) is Some,
        rx_size_class(rx_size_class(n).unwrap().0).unwrap().0 == rx_size_class(n).unwrap().0,
{
    if n > 62 {
        let q = (n + 31) / 32;
        assert(2 <= q <= 32);
        assert((q * 32 + 31) / 32 == q);
    }
}

/// Whether a buffer, if any, lies between `end` and the top of the packet memory.
pub open spec fn within(m: Option<EndpointMemoryAllocation>, end: int) -> bool {
    m matches Some(b) ==> end <= b.address && b.address + b.size <= ENDPOINT_MEMORY_SIZE
}

/// Whether both buffers of the slot lie between `end` and the top of the packet memory.
pub open spec fn buffers_within(s: EndpointAllocation, end: int) -> bool {
    within(s.buffer0, end) && within(s.buffer1, end)
}

/// Whether the slot already serves direction `d`.
pub open spec fn has_direction(s: EndpointAllocation, d: UsbDirection) -> bool {
    (s.tx_enabled && d == UsbDirection::In) || (s.rx_enabled && d == UsbDirection::Out)
}

/// Whether the slot can take an endpoint of type `t` in direction `d`: as
/// the other half of a pair when single-buffered, only while it serves no
/// direction at all when double-buffered.
pub open spec fn has_space(s: EndpointAllocation, t: EndpointType, d: UsbDirection, double_buffered: bool) -> bool {
    &&& s.ep_type == t
    &&& !s.double_buffered
    &&& !has_direction(s, d)
    &&& double_buffered ==> !s.tx_enabled && !s.rx_enabled
}

impl EndpointAllocation {
    fn has_direction(&self, direction: UsbDirection) -> (r: bool)
        ensures
            r == has_direction(*self, direction),
    {
        self.tx_enabled && direction == UsbDirection::In || self.rx_enabled && direction
            == UsbDirection::Out
    }

    fn has_space(&self, ep_type: EndpointType, direction: UsbDirection, double_buffered: bool) -> (r: bool)
        ensures
            r == has_space(*self, ep_type, direction, double_buffered),
    {
        if self.ep_type != ep_type {
            false
        } else if self.double_buffered {
            false
        } else if double_buffered {
            !self.tx_enabled && !self.rx_enabled
        } else {
            !self.has_direction(direction)
        }
    }
}

/// The first slot from `i` on that has space for type `t` in direction `d`
/// (with one or two buffers), or the number of slots.
pub open spec fn first_with_space(
    slots: Seq<EndpointAllocation>,
    t: EndpointType,
    d: UsbDirection,
    double_buffered: bool,
    i: int,
) -> int
    decreases slots.len() - i,
{
    if i < 0 || i >= slots.len() {
        slots.len() as int
    } else if has_space(slots[i], t, d, double_buffered) {
        i
    } else {
        first_with_space(slots, t, d, double_buffered, i + 1)
    }
}

/// The first slot from `i` on with address index `n`, or the number of slots.
pub open spec fn slot_with_index(slots: Seq<EndpointAllocation>, n: u8, i: int) -> int
    decreases slots.len() - i,
{
    if i < 0 || i >= slots.len() {
        slots.len() as int
    } else if slots[i].address_index == n {
        i
    } else {
        slot_with_index(slots, n, i + 1)
    }
}

/// Whether some slot has address index `n`.
pub open spec fn index_used(slots: Seq<EndpointAllocation>, n: int) -> bool {
    exists|k: int| 0 <= k < slots.len() && slots[k].address_index == n
}

/// The number of slots besides the control slot. Slots have distinct address
/// indices, so at most one of them is the control slot at index 0.
pub open spec fn other_slots(slots: Seq<EndpointAllocation>) -> int {
    slots.len() - (if index_used(slots, 0) {
        1int
    } else {
        0int
    })
}

/// The lowest address index from `i` below 16 that no slot uses, or 16.
pub open spec fn lowest_free_index(slots: Seq<EndpointAllocation>, i: int) -> int
    decreases 16 - i,
{
    if i >= 16 {
        16
    } else if !index_used(slots, i) {
        i
    } else {
        lowest_free_index(slots, i + 1)
    }
}

/// The bytes that one buffer of direction `d` takes for packets of `mps` bytes.
pub open spec fn buffer_size(d: UsbDirection, mps: u16) -> int {
    match d {
        UsbDirection::In => round_even(mps as int),
        UsbDirection::Out => rx_size_class(mps as int).unwrap().0,
    }
}

/// A new, empty slot whose table entry is at `start`.
pub open spec fn fresh_slot(index: u8, t: EndpointType, start: u16) -> EndpointAllocation {
    EndpointAllocation {
        address_index: index,
        ep_type: t,
        tx_enabled: false,
        rx_enabled: false,
        double_buffered: false,
        buffer_descriptor: EndpointMemoryAllocation { address: start, size: 8 },
        buffer0: None,
        buffer1: None,
    }
}

/// The slot once it serves direction `d` with buffers of `size` bytes placed
/// just below `end`.
pub open spec fn served_slot(
    s: EndpointAllocation,
    d: UsbDirection,
    double_buffered: bool,
    end: int,
    size: int,
) -> EndpointAllocation {
    if double_buffered {
        EndpointAllocation {
            tx_enabled: d == UsbDirection::In,
            rx_enabled: d == UsbDirection::Out,
            double_buffered: true,
            buffer0: Some(EndpointMemoryAllocation { address: (end - size) as u16, size: size as u16 }),
            buffer1: Some(
                EndpointMemoryAllocation { address: (end - 2 * size) as u16, size: size as u16 },
            ),
            ..s
        }
    } else if d == UsbDirection::In {
        EndpointAllocation {
            tx_enabled: true,
            buffer0: Some(EndpointMemoryAllocation { address: (end - size) as u16, size: size as u16 }),
            ..s
        }
    } else {
        EndpointAllocation {
            rx_enabled: true,
            buffer1: Some(EndpointMemoryAllocation { address: (end - size) as u16, size: size as u16 }),
            ..s
        }
    }
}

/// Assigns endpoint addresses and places endpoint buffers in the packet
/// memory: table entries grow up from 0, buffers grow down from the top, and
/// a reservation that would make the two meet or cross is refused.
pub struct DeviceAllocator {
    endpoints: Vec<EndpointAllocation>,
    start_address: u16,
    end_address: u16,
}

impl DeviceAllocator {
    /// The slots in the order they were created.
    pub closed spec fn slots(&self) -> Seq<EndpointAllocation> {
        self.endpoints@
    }

    /// First free byte above the buffer-descriptor table.
    pub closed spec fn start(&self) -> u16 {
        self.start_address
    }

    /// Lowest byte taken by an endpoint buffer (the memory size when none is).
    pub closed spec fn end(&self) -> u16 {
        self.end_address
    }

    pub open spec fn wf(&self) -> bool {
        &&& self.start() < self.end() <= ENDPOINT_MEMORY_SIZE
        &&& self.start() == 8 * self.slots().len()
        &&& other_slots(self.slots()) <= DEVICE_ENDPOINT_COUNT
        &&& forall|k: int| 0 <= k < self.slots().len() ==> #[trigger] self.slots()[k].address_index < 16
        &&& forall|k: int| 0 <= k < self.slots().len() ==> rx_ready(#[trigger] self.slots()[k])
        &&& forall|k: int|
            0 <= k < self.slots().len() ==> buffers_within(#[trigger] self.slots()[k], self.end() as int)
        &&& forall|k: int| 0 <= k < self.slots().len() ==> (#[trigger] self.slots()[k]).buffer_descriptor
            == (EndpointMemoryAllocation { address: (8 * k) as u16, size: 8 })
        &&& forall|i: int, j: int|
            0 <= i < j < self.slots().len() ==> #[trigger] self.slots()[i].address_index
                != #[trigger] self.slots()[j].address_index
    }

    /// First free byte above the buffer-descriptor table.
    pub fn start_address(&self) -> (r: u16)
        ensures
            r == self.start(),
    {
        self.start_address
    }

    /// Lowest byte taken by an endpoint buffer.
    pub fn end_address(&self) -> (r: u16)
        ensures
            r == self.end(),
    {
        self.end_address
    }

    /// Number of hardware endpoint slots in use.
    pub fn slot_count(&self) -> (r: usize)
        ensures
            r == self.slots().len(),
    {
        self.endpoints.len()
    }

    /// The slot at position `k`, in the order the slots were created.
    pub fn slot(&self, k: usize) -> (r: EndpointAllocation)
        requires
            k < self.slots().len(),
        ensures
            r == self.slots()[k as int],
    {
        self.endpoints[k]
    }

    /// An allocator with no slots and the whole memory free.
    pub fn new() -> (r: DeviceAllocator)
        ensures
            r.wf(),
            r.slots() == Seq::<EndpointAllocation>::empty(),
            r.start() == 0,
            r.end() == ENDPOINT_MEMORY_SIZE,
    {
        Self { endpoints: Vec::new(), start_address: 0, end_address: ENDPOINT_MEMORY_SIZE }
    }

    /// The slot that a request for `b` goes to: an existing one, or the
    /// number of slots when a new one is needed.
    pub open spec fn target_slot(&self, b: EndpointBuilder, double_buffered: bool) -> int {
        match b.number {
            Some(n) => slot_with_index(self.slots(), n, 0),
            None => first_with_space(
                self.slots(),
                b.ep_type.unwrap(),
                b.direction.unwrap(),
                double_buffered,
                0,
            ),
        }
    }

    /// Whether a request for `b` needs a new slot.
    pub open spec fn needs_new_slot(&self, b: EndpointBuilder, double_buffered: bool) -> bool {
        self.target_slot(b, double_buffered) == self.slots().len()
    }

    /// The address index that a request for `b` gets.
    pub open spec fn target_index(&self, b: EndpointBuilder, double_buffered: bool) -> u8 {
        if !self.needs_new_slot(b, double_buffered) {
            self.slots()[self.target_slot(b, double_buffered)].address_index
        } else {
            match b.number {
                Some(n) => n,
                None => lowest_free_index(self.slots(), 1) as u8,
            }
        }
    }

    /// The bytes of packet memory that a request for `b` takes.
    pub open spec fn bytes_needed(&self, b: EndpointBuilder, double_buffered: bool) -> int {
        (if self.needs_new_slot(b, double_buffered) {
            8int
        } else {
            0int
        }) + (if double_buffered {
            2int
        } else {
            1int
        }) * buffer_size(b.direction.unwrap(), b.max_packet_size.unwrap())
    }

    /// Why a request for `b` fails, if it does.
    pub open spec fn allocation_error(&self, b: EndpointBuilder, double_buffered: bool) -> Option<
        UsbGenError,
    > {
        if b.ep_type is None || b.direction is None || b.max_packet_size is None {
            Some(UsbGenError::Configuration)
        } else {
            let d = b.direction.unwrap();
            let k = self.target_slot(b, double_buffered);
            let is_new = self.needs_new_slot(b, double_buffered);
            let free = self.end() - self.start();
            if b.number matches Some(n) && (n == 0 || n >= 16) {
                Some(UsbGenError::Configuration)
            } else if b.number is Some && !is_new && (double_buffered
                || self.slots()[k].double_buffered || has_direction(self.slots()[k], d)) {
                Some(UsbGenError::Configuration)
            } else if is_new && other_slots(self.slots()) >= DEVICE_ENDPOINT_COUNT {
                Some(UsbGenError::ResourceExhausted)
            } else if is_new && b.number is None && lowest_free_index(self.slots(), 1) >= 16 {
                Some(UsbGenError::ResourceExhausted)
            } else if is_new && free <= 8 {
                Some(UsbGenError::ResourceExhausted)
            } else if d == UsbDirection::Out && b.max_packet_size.unwrap() > 1024 {
                Some(UsbGenError::Configuration)
            } else if self.bytes_needed(b, double_buffered) >= free {
                Some(UsbGenError::ResourceExhausted)
            } else {
                None
            }
        }
    }

    /// The slots after a successful request for `b`.
    pub open spec fn slots_after(&self, b: EndpointBuilder, double_buffered: bool) -> Seq<
        EndpointAllocation,
    > {
        let d = b.direction.unwrap();
        let size = buffer_size(d, b.max_packet_size.unwrap());
        if self.needs_new_slot(b, double_buffered) {
            self.slots().push(
                served_slot(
                    fresh_slot(self.target_index(b, double_buffered), b.ep_type.unwrap(), self.start()),
                    d,
                    double_buffered,
                    self.end() as int,
                    size,
                ),
            )
        } else {
            let k = self.target_slot(b, double_buffered);
            self.slots().update(
                k,
                served_slot(self.slots()[k], d, double_buffered, self.end() as int, size),
            )
        }
    }

    /// The slot with address index `n`, or the number of slots.
    fn find_slot_with_index(&self, n: u8) -> (r: usize)
        ensures
            r == slot_with_index(self.slots(), n, 0),
    {
        let mut i: usize = 0;
        while i < self.endpoints.len()
            invariant
                i <= self.slots().len(),
                slot_with_index(self.slots(), n, 0) == slot_with_index(self.slots(), n, i as int),
            decreases self.slots().len() - i,
        {
            if self.endpoints[i].address_index == n {
                return i;
            }
            i = i + 1;
        }
        i
    }

    /// The first slot with space for type `t` in direction `d`, or the number of slots.
    fn find_slot_with_space(&self, t: EndpointType, d: UsbDirection, double_buffered: bool) -> (r: usize)
        ensures
            r == first_with_space(self.slots(), t, d, double_buffered, 0),
    {
        let mut i: usize = 0;
        while i < self.endpoints.len()
            invariant
                i <= self.slots().len(),
                first_with_space(self.slots(), t, d, double_buffered, 0) == first_with_space(
                    self.slots(),
                    t,
                    d,
                    double_buffered,
                    i as int,
                ),
            decreases self.slots().len() - i,
        {
            if self.endpoints[i].has_space(t, d, double_buffered) {
                return i;
            }
            i = i + 1;
        }
        i
    }

    /// Whether some slot has address index `n`.
    fn index_in_use(&self, n: u8) -> (r: bool)
        ensures
            r == index_used(self.slots(), n as int),
    {
        let mut i: usize = 0;
        while i < self.endpoints.len()
            invariant
                i <= self.slots().len(),
                forall|k: int| 0 <= k < i ==> self.slots()[k].address_index != n,
            decreases self.slots().len() - i,
        {
            if self.endpoints[i].address_index == n {
                return true;
            }
            i = i + 1;
        }
        false
    }

    /// The lowest address index in `1..16` that no slot uses.
    fn get_free_address_index(&self) -> (r: Result<u8, UsbGenError>)
        ensures
            lowest_free_index(self.slots(), 1) < 16 ==> r == Ok::<u8, UsbGenError>(
                lowest_free_index(self.slots(), 1) as u8,
            ),
            lowest_free_index(self.slots(), 1) >= 16 ==> r == Err::<u8, UsbGenError>(
                UsbGenError::ResourceExhausted,
            ),
    {
        let mut index: usize = 1;
        while index < USB_MAX_ENDPOINTS
            invariant
                1 <= index <= 16,
                lowest_free_index(self.slots(), 1) == lowest_free_index(self.slots(), index as int),
            decreases 16 - index,
        {
            if !self.index_in_use(index as u8) {
                return Ok(index as u8);
            }
            index = index + 1;
        }
        Err(UsbGenError::ResourceExhausted)
    }

    /// The number of slots besides the control slot.
    fn other_slot_count(&self) -> (r: usize)
        requires
            self.wf(),
        ensures
            r == other_slots(self.slots()),
    {
        if self.index_in_use(0) {
            self.endpoints.len() - 1
        } else {
            self.endpoints.len()
        }
    }

    /// Claims the next 8-byte buffer-descriptor-table entry, unless that
    /// would make the table meet the buffers.
    fn allocate_buffer_descriptor(&mut self) -> (r: Result<EndpointMemoryAllocation, UsbGenError>)
        requires
            old(self).start() < old(self).end() <= ENDPOINT_MEMORY_SIZE,
        ensures
            final(self).slots() == old(self).slots(),
            final(self).end() == old(self).end(),
            if BUFFER_DESCRIPTOR_SIZE < old(self).end() - old(self).start() {
                &&& r == Ok::<EndpointMemoryAllocation, UsbGenError>(
                    EndpointMemoryAllocation { address: old(self).start(), size: 8 },
                )
                &&& final(self).start() == old(self).start() + 8
            } else {
                &&& r == Err::<EndpointMemoryAllocation, UsbGenError>(UsbGenError::ResourceExhausted)
                &&& final(self).start() == old(self).start()
            },
    {
        let size = BUFFER_DESCRIPTOR_SIZE;
        if size < self.end_address - self.start_address {
            let address = self.start_address;
            self.start_address = self.start_address + size;
            Ok(EndpointMemoryAllocation { address, size })
        } else {
            Err(UsbGenError::ResourceExhausted)
        }
    }

    /// Claims `size` bytes, rounded up to even, just below the lowest buffer,
    /// unless that would make the buffers meet the table.
    fn allocate_endpoint_buffer(&mut self, size: u16) -> (r: Result<EndpointMemoryAllocation, UsbGenError>)
        requires
            old(self).start() < old(self).end() <= ENDPOINT_MEMORY_SIZE,
        ensures
            final(self).slots() == old(self).slots(),
            final(self).start() == old(self).start(),
            if round_even(size as int) < old(self).end() - old(self).start() {
                &&& r == Ok::<EndpointMemoryAllocation, UsbGenError>(
                    EndpointMemoryAllocation {
                        address: (old(self).end() - round_even(size as int)) as u16,
                        size: round_even(size as int) as u16,
                    },
                )
                &&& final(self).end() == old(self).end() - round_even(size as int)
            } else {
                &&& r == Err::<EndpointMemoryAllocation, UsbGenError>(UsbGenError::ResourceExhausted)
                &&& final(self).end() == old(self).end()
            },
    {
        let rounded: u32 = size as u32 + size as u32 % 2;
        if rounded < (self.end_address - self.start_address) as u32 {
            let size = rounded as u16;
            self.end_address = self.end_address - size;
            Ok(EndpointMemoryAllocation { address: self.end_address, size })
        } else {
            Err(UsbGenError::ResourceExhausted)
        }
    }

    /// Adds an empty slot of type `ep_type` at address index `index` with
    /// its table entry, unless the slots or the memory have run out; gives
    /// back its position.
    fn allocate_empty_endpoint(&mut self, ep_type: EndpointType, index: u8) -> (r: Result<usize, UsbGenError>)
        requires
            old(self).wf(),
            0 < index < 16,
            !index_used(old(self).slots(), index as int),
        ensures
            final(self).wf(),
            final(self).end() == old(self).end(),
            if other_slots(old(self).slots()) < DEVICE_ENDPOINT_COUNT && BUFFER_DESCRIPTOR_SIZE < old(self).end()
                - old(self).start() {
                &&& r == Ok::<usize, UsbGenError>(old(self).slots().len() as usize)
                &&& final(self).slots() == old(self).slots().push(
                    fresh_slot(index, ep_type, old(self).start()),
                )
                &&& final(self).start() == old(self).start() + 8
            } else {
                &&& r == Err::<usize, UsbGenError>(UsbGenError::ResourceExhausted)
                &&& final(self).slots() == old(self).slots()
                &&& final(self).start() == old(self).start()
            },
    {
        if self.other_slot_count() >= DEVICE_ENDPOINT_COUNT {
            return Err(UsbGenError::ResourceExhausted);
        }
        let ghost slots = self.slots();
        let buffer_descriptor = match self.allocate_buffer_descriptor() {
            Ok(b) => b,
            Err(e) => return Err(e),
        };
        let ep = EndpointAllocation {
            address_index: index,
            ep_type,
            tx_enabled: false,
            rx_enabled: false,
            double_buffered: false,
            buffer_descriptor,
            buffer0: None,
            buffer1: None,
        };
        let i = self.endpoints.len();
        self.endpoints.push(ep);
        proof {
            let sl = self.slots();
            assert(index_used(sl, 0) == index_used(slots, 0)) by {
                if index_used(slots, 0) {
                    let z = choose|z: int| 0 <= z < slots.len() && slots[z].address_index == 0;
                    assert(sl[z].address_index == 0);
                }
                if index_used(sl, 0) {
                    let z = choose|z: int| 0 <= z < sl.len() && sl[z].address_index == 0;
                    if z < slots.len() {
                        assert(slots[z].address_index == 0);
                    }
                }
            }
            assert forall|a: int, b: int| 0 <= a < b < sl.len() implies #[trigger] sl[a].address_index
                != #[trigger] sl[b].address_index by {
                assert(slots[a].address_index == sl[a].address_index);
                if b < slots.len() {
                    assert(slots[b].address_index == sl[b].address_index);
                }
            }
            assert forall|a: int| 0 <= a < sl.len() implies (#[trigger] sl[a]).buffer_descriptor
                == (EndpointMemoryAllocation { address: (8 * a) as u16, size: 8 }) by {
                if a < slots.len() {
                    assert(slots[a].buffer_descriptor == sl[a].buffer_descriptor);
                }
            }
            assert forall|a: int| 0 <= a < sl.len() implies rx_ready(#[trigger] sl[a]) by {
                if a < slots.len() {
                    assert(sl[a] == slots[a]);
                }
            }
        }
        Ok(i)
    }

    /// Where a request for `builder` goes (slot, address index) and how big each
    /// of its buffers is, or why it fails.
    fn plan_allocation(&self, builder: EndpointBuilder, double_buffered: bool) -> (r: Result<
        (usize, u8, u16),
        UsbGenError,
    >)
        requires
            self.wf(),
        ensures
            match r {
                Err(e) => self.allocation_error(builder, double_buffered) == Some(e),
                Ok((k, index, size)) => {
                    &&& self.allocation_error(builder, double_buffered) is None
                    &&& k == self.target_slot(builder, double_buffered)
                    &&& k <= self.slots().len()
                    &&& (k == self.slots().len()) == self.needs_new_slot(builder, double_buffered)
                    &&& self.bytes_needed(builder, double_buffered) < self.end() - self.start()
                    &&& index == self.target_index(builder, double_buffered)
                    &&& size == buffer_size(builder.direction.unwrap(), builder.max_packet_size.unwrap())
                    &&& k < self.slots().len() ==> !has_direction(self.slots()[k as int], builder.direction.unwrap())
                    &&& double_buffered && k < self.slots().len() ==> !self.slots()[k as int].tx_enabled
                        && !self.slots()[k as int].rx_enabled
                    &&& builder.direction == Some(UsbDirection::Out) ==> is_rx_size(size as int)
                    &&& size % 2 == 0
                    &&& k == self.slots().len() ==> {
                        &&& other_slots(self.slots()) < DEVICE_ENDPOINT_COUNT
                        &&& 0 < index < 16
                        &&& !index_used(self.slots(), index as int)
                    }
                },
            },
    {
        let ep_type = match builder.ep_type {
            Some(t) => t,
            None => return Err(UsbGenError::Configuration),
        };
        let direction = match builder.direction {
            Some(d) => d,
            None => return Err(UsbGenError::Configuration),
        };
        let max_packet_size = match builder.max_packet_size {
            Some(m) => m,
            None => return Err(UsbGenError::Configuration),
        };
        let ghost slots = self.slots();
        proof {
            lemma_searches(slots, builder.number.unwrap_or(0), ep_type, direction, double_buffered, 0);
            lemma_lowest_free(slots, 1);
        }
        let len = self.endpoints.len();
        let k: usize;
        let index: u8;
        match builder.number {
            Some(n) => {
                if n == 0 || n >= 16 {
                    return Err(UsbGenError::Configuration);
                }
                k = self.find_slot_with_index(n);
                if k < len {
                    let ep = self.endpoints[k];
                    if double_buffered || ep.double_buffered || ep.has_direction(direction) {
                        return Err(UsbGenError::Configuration);
                    }
                } else if self.other_slot_count() >= DEVICE_ENDPOINT_COUNT {
                    return Err(UsbGenError::ResourceExhausted);
                }
                index = n;
            },
            None => {
                k = self.find_slot_with_space(ep_type, direction, double_buffered);
                if k < len {
                    index = self.endpoints[k].address_index;
                } else {
                    if self.other_slot_count() >= DEVICE_ENDPOINT_COUNT {
                        return Err(UsbGenError::ResourceExhausted);
                    }
                    index = match self.get_free_address_index() {
                        Ok(i) => i,
                        Err(e) => return Err(e),
                    };
                }
            },
        }
        let is_new = k == len;
        let free = self.end_address - self.start_address;
        if is_new && free <= BUFFER_DESCRIPTOR_SIZE {
            return Err(UsbGenError::ResourceExhausted);
        }
        let size: u32 = match direction {
            UsbDirection::In => max_packet_size as u32 + max_packet_size as u32 % 2,
            UsbDirection::Out => match calculate_count_rx(max_packet_size) {
                Ok((s, _)) => {
                    proof {
                        lemma_rx_size_idempotent(max_packet_size as int);
                    }
                    s as u32
                },
                Err(e) => return Err(e),
            },
        };
        let count: u32 = if double_buffered {
            2
        } else {
            1
        };
        let table: u32 = if is_new {
            8
        } else {
            0
        };
        if table + count * size >= free as u32 {
            return Err(UsbGenError::ResourceExhausted);
        }
        Ok((k, index, size as u16))
    }

    /// Makes the slot (when `k` is the number of slots) and places its buffers.
    fn commit_allocation(
        &mut self,
        k: usize,
        index: u8,
        ep_type: EndpointType,
        direction: UsbDirection,
        size: u16,
        double_buffered: bool,
    )
        requires
            old(self).wf(),
            k <= old(self).slots().len(),
            k == old(self).slots().len() ==> {
                &&& other_slots(old(self).slots()) < DEVICE_ENDPOINT_COUNT
                &&& 0 < index < 16
                &&& !index_used(old(self).slots(), index as int)
            },
            (if k == old(self).slots().len() {
                8int
            } else {
                0int
            }) + (if double_buffered {
                2int
            } else {
                1int
            }) * size < old(self).end() - old(self).start(),
            !double_buffered && direction == UsbDirection::Out ==> is_rx_size(size as int),
            size % 2 == 0,
        ensures
            final(self).wf(),
            final(self).slots() == (if k == old(self).slots().len() {
                old(self).slots().push(
                    served_slot(
                        fresh_slot(index, ep_type, old(self).start()),
                        direction,
                        double_buffered,
                        old(self).end() as int,
                        size as int,
                    ),
                )
            } else {
                old(self).slots().update(
                    k as int,
                    served_slot(
                        old(self).slots()[k as int],
                        direction,
                        double_buffered,
                        old(self).end() as int,
                        size as int,
                    ),
                )
            }),
            final(self).start() == old(self).start() + (if k == old(self).slots().len() {
                8int
            } else {
                0int
            }),
            final(self).end() == old(self).end() - (if double_buffered {
                2int
            } else {
                1int
            }) * size,
    {
        let ghost slots = self.slots();
        let mut k = k;
        if k == self.endpoints.len() {
            k = match self.allocate_empty_endpoint(ep_type, index) {
                Ok(i) => i,
                Err(_) => return,
            };
        }
        let mut ep = self.endpoints[k];
        let first = match self.allocate_endpoint_buffer(size) {
            Ok(b) => b,
            Err(_) => return,
        };
        if double_buffered {
            let second = match self.allocate_endpoint_buffer(size) {
                Ok(b) => b,
                Err(_) => return,
            };
            ep.tx_enabled = direction == UsbDirection::In;
            ep.rx_enabled = direction == UsbDirection::Out;
            ep.double_buffered = true;
            ep.buffer0 = Some(first);
            ep.buffer1 = Some(second);
        } else if direction == UsbDirection::In {
            ep.tx_enabled = true;
            ep.buffer0 = Some(first);
        } else {
            ep.rx_enabled = true;
            ep.buffer1 = Some(first);
        }
        self.endpoints.set(k, ep);
        proof {
            let sl = self.slots();
            assert forall|i: int, j: int| 0 <= i < j < sl.len() implies #[trigger] sl[i].address_index
                != #[trigger] sl[j].address_index by {
                assert(slots[i].address_index == sl[i].address_index);
                if j < slots.len() {
                    assert(slots[j].address_index == sl[j].address_index);
                }
            }
            assert forall|i: int| 0 <= i < sl.len() implies (#[trigger] sl[i]).buffer_descriptor
                == (EndpointMemoryAllocation { address: (8 * i) as u16, size: 8 }) by {
                if i < slots.len() {
                    assert(slots[i].buffer_descriptor == sl[i].buffer_descriptor);
                }
            }
            assert(index_used(sl, 0) == index_used(slots, 0)) by {
                if index_used(slots, 0) {
                    let z = choose|z: int| 0 <= z < slots.len() && slots[z].address_index == 0;
                    assert(sl[z].address_index == 0);
                }
                if index_used(sl, 0) {
                    let z = choose|z: int| 0 <= z < sl.len() && sl[z].address_index == 0;
                    assert(slots[z].address_index == 0);
                }
            }
            assert forall|i: int| 0 <= i < sl.len() implies rx_ready(#[trigger] sl[i]) by {
                if i != k && i < slots.len() {
                    assert(sl[i] == slots[i]);
                }
            }
        }
    }

    /// Finds or makes a slot for the endpoint that `builder` describes and
    /// places its buffer (two buffers when `double_buffered`). A pinned
    /// number must be in `1..16`, index 0 being the control endpoint's; it
    /// reuses the slot with that index when that slot can take the direction.
    /// Otherwise a single-buffered request shares a slot of the same type
    /// that lacks the direction, and a double-buffered one only takes a slot
    /// that serves no direction yet; failing that, a new slot gets the lowest
    /// free index. On success the builder comes back with its number set; on
    /// failure nothing changes.
    pub fn allocate_from_builder(&mut self, builder: EndpointBuilder, double_buffered: bool) -> (r:
        Result<EndpointBuilder, UsbGenError>)
        requires
            old(self).wf(),
        ensures
            final(self).wf(),
            match r {
                Err(e) => {
                    &&& old(self).allocation_error(builder, double_buffered) == Some(e)
                    &&& final(self).slots() == old(self).slots()
                    &&& final(self).start() == old(self).start()
                    &&& final(self).end() == old(self).end()
                },
                Ok(b) => {
                    &&& old(self).allocation_error(builder, double_buffered) is None
                    &&& b == (EndpointBuilder {
                        number: Some(old(self).target_index(builder, double_buffered)),
                        ..builder
                    })
                    &&& b.is_complete()
                    &&& old(self).needs_new_slot(builder, double_buffered) || !has_direction(
                        old(self).slots()[old(self).target_slot(builder, double_buffered)],
                        builder.direction.unwrap(),
                    )
                    &&& double_buffered ==> old(self).needs_new_slot(builder, double_buffered) || (
                    !old(self).slots()[old(self).target_slot(
                        builder,
                        double_buffered,
                    )].tx_enabled && !old(self).slots()[old(self).target_slot(
                        builder,
                        double_buffered,
                    )].rx_enabled)
                    &&& final(self).slots() == old(self).slots_after(builder, double_buffered)
                    &&& final(self).start() == old(self).start() + (if old(self).needs_new_slot(builder, double_buffered) {
                        8int
                    } else {
                        0int
                    })
                    &&& final(self).end() == old(self).end() - (old(self).bytes_needed(
                        builder,
                        double_buffered,
                    ) - (final(self).start() - old(self).start()))
                },
            },
    {
        let (k, index, size) = match self.plan_allocation(builder, double_buffered) {
            Ok(p) => p,
            Err(e) => return Err(e),
        };
        let ep_type = match builder.ep_type {
            Some(t) => t,
            None => EndpointType::Control,
        };
        let direction = match builder.direction {
            Some(d) => d,
            None => UsbDirection::Out,
        };
        proof {
            lemma_searches(
                old(self).slots(),
                builder.number.unwrap_or(0),
                ep_type,
                direction,
                double_buffered,
                0,
            );
        }
        self.commit_allocation(k, index, ep_type, direction, size, double_buffered);
        if builder.number.is_none() {
            Ok(builder.number(index))
        } else {
            Ok(builder)
        }
    }
}

/// What the searches return: a slot that matches, or none at all.
proof fn lemma_searches(
    slots: Seq<EndpointAllocation>,
    n: u8,
    t: EndpointType,
    d: UsbDirection,
    double_buffered: bool,
    i: int,
)
    requires
        0 <= i <= slots.len(),
    ensures
        i <= slot_with_index(slots, n, i) <= slots.len(),
        slot_with_index(slots, n, i) < slots.len() ==> slots[slot_with_index(
            slots,
            n,
            i,
        )].address_index == n,
        slot_with_index(slots, n, i) == slots.len() ==> forall|k: int|
            i <= k < slots.len() ==> slots[k].address_index != n,
        i <= first_with_space(slots, t, d, double_buffered, i) <= slots.len(),
        first_with_space(slots, t, d, double_buffered, i) < slots.len() ==> has_space(
            slots[first_with_space(slots, t, d, double_buffered, i)],
            t,
            d,
            double_buffered,
        ),
    decreases slots.len() - i,
{
    if i < slots.len() {
        lemma_searches(slots, n, t, d, double_buffered, i + 1);
    }
}

/// The lowest free index is free and at least where the search began.
proof fn lemma_lowest_free(slots: Seq<EndpointAllocation>, i: int)
    requires
        1 <= i <= 16,
    ensures
        i <= lowest_free_index(slots, i) <= 16,
        lowest_free_index(slots, i) < 16 ==> !index_used(slots, lowest_free_index(slots, i)),
    decreases 16 - i,
{
    if i < 16 {
        lemma_lowest_free(slots, i + 1);
    }
}

/// The control endpoint's slot: index 0, both directions, table entry at
/// `start`, transmit buffer below `end` and receive buffer below that.
pub open spec fn control_slot(start: u16, end: int, mps: int) -> EndpointAllocation {
    let tx = round_even(mps);
    let rx = rx_size_class(mps).unwrap().0;
    EndpointAllocation {
        address_index: 0,
        ep_type: EndpointType::Control,
        tx_enabled: true,
        rx_enabled: true,
        double_buffered: false,
        buffer_descriptor: EndpointMemoryAllocation { address: start, size: 8 },
        buffer0: Some(EndpointMemoryAllocation { address: (end - tx) as u16, size: tx as u16 }),
        buffer1: Some(EndpointMemoryAllocation { address: (end - tx - rx) as u16, size: rx as u16 }),
    }
}

impl DeviceAllocator {
    /// The bytes that the control endpoint takes: its table entry and two buffers.
    pub open spec fn control_bytes(mps: u8) -> int {
        8 + round_even(mps as int) + rx_size_class(mps as int).unwrap().0
    }

    /// Why allocating the control endpoint fails, if it does.
    pub open spec fn control_error(&self, mps: u8) -> Option<UsbGenError> {
        if index_used(self.slots(), 0) {
            Some(UsbGenError::Configuration)
        } else if Self::control_bytes(mps) >= self.end() - self.start() {
            Some(UsbGenError::ResourceExhausted)
        } else {
            None
        }
    }

    /// Allocates the control endpoint at address 0, both directions, from one
    /// maximum packet size. It is not held to the limit on slots. On failure
    /// nothing changes.
    pub fn allocate_control_endpoint(&mut self, max_packet_size_0: u8) -> (r: Result<(), UsbGenError>)
        requires
            old(self).wf(),
        ensures
            final(self).wf(),
            match r {
                Err(e) => {
                    &&& old(self).control_error(max_packet_size_0) == Some(e)
                    &&& final(self).slots() == old(self).slots()
                    &&& final(self).start() == old(self).start()
                    &&& final(self).end() == old(self).end()
                },
                Ok(_) => {
                    &&& old(self).control_error(max_packet_size_0) is None
                    &&& final(self).slots() == old(self).slots().push(
                        control_slot(old(self).start(), old(self).end() as int, max_packet_size_0 as int),
                    )
                    &&& final(self).start() == old(self).start() + 8
                    &&& final(self).end() == old(self).end() - (DeviceAllocator::control_bytes(
                        max_packet_size_0,
                    ) - 8)
                },
            },
    {
        if self.index_in_use(0) {
            return Err(UsbGenError::Configuration);
        }
        let mps = max_packet_size_0 as u16;
        let tx = mps + mps % 2;
        let rx = match calculate_count_rx(mps) {
            Ok((s, _)) => s,
            Err(e) => return Err(e),
        };
        proof {
            lemma_rx_size_idempotent(mps as int);
        }
        if BUFFER_DESCRIPTOR_SIZE as u32 + tx as u32 + rx as u32 >= (self.end_address
            - self.start_address) as u32 {
            return Err(UsbGenError::ResourceExhausted);
        }
        let ghost slots = self.slots();
        let buffer_descriptor = match self.allocate_buffer_descriptor() {
            Ok(b) => b,
            Err(e) => return Err(e),
        };
        let buffer_tx = match self.allocate_endpoint_buffer(tx) {
            Ok(b) => b,
            Err(e) => return Err(e),
        };
        let buffer_rx = match self.allocate_endpoint_buffer(rx) {
            Ok(b) => b,
            Err(e) => return Err(e),
        };
        let ep = EndpointAllocation {
            address_index: 0,
            ep_type: EndpointType::Control,
            tx_enabled: true,
            rx_enabled: true,
            double_buffered: false,
            buffer_descriptor,
            buffer0: Some(buffer_tx),
            buffer1: Some(buffer_rx),
        };
        self.endpoints.push(ep);
        proof {
            let sl = self.slots();
            assert(sl[slots.len() as int].address_index == 0);
            assert forall|i: int, j: int| 0 <= i < j < sl.len() implies #[trigger] sl[i].address_index
                != #[trigger] sl[j].address_index by {
                assert(slots[i].address_index == sl[i].address_index);
                if j < slots.len() {
                    assert(slots[j].address_index == sl[j].address_index);
                }
            }
            assert forall|i: int| 0 <= i < sl.len() implies (#[trigger] sl[i]).buffer_descriptor
                == (EndpointMemoryAllocation { address: (8 * i) as u16, size: 8 }) by {
                if i < slots.len() {
                    assert(slots[i].buffer_descriptor == sl[i].buffer_descriptor);
                }
            }
            assert forall|i: int| 0 <= i < sl.len() implies rx_ready(#[trigger] sl[i]) by {
                if i < slots.len() {
                    assert(sl[i] == slots[i]);
                }
            }
        }
        Ok(())
    }
}

/// Slots never share an address index, so no address index and direction
/// is ever served by two endpoints (and each allocation takes a direction
/// that its slot did not serve yet).
pub proof fn lemma_addresses_unique(a: &DeviceAllocator, i: int, j: int)
    requires
        a.wf(),
        0 <= i < a.slots().len(),
        0 <= j < a.slots().len(),
        i != j,
    ensures
        a.slots()[i].address_index != a.slots()[j].address_index,
{
    if i < j {
        assert(a.slots()[i].address_index != a.slots()[j].address_index);
    } else {
        assert(a.slots()[j].address_index != a.slots()[i].address_index);
    }
}

/// The table cursor and the buffer cursor never meet or cross, and the bytes
/// both have taken stay below the size of the packet memory; every table
/// entry lies below the table cursor and every buffer at or above the buffer
/// cursor, so no buffer overlaps the table.
pub proof fn lemma_cursors_never_cross(a: &DeviceAllocator)
    requires
        a.wf(),
    ensures
        a.start() < a.end(),
        a.start() + (ENDPOINT_MEMORY_SIZE - a.end()) < ENDPOINT_MEMORY_SIZE,
        forall|k: int|
            0 <= k < a.slots().len() ==> {
                &&& (#[trigger] a.slots()[k]).buffer_descriptor.address + 8 <= a.start()
                &&& buffers_within(a.slots()[k], a.end() as int)
            },
{
    assert forall|k: int| 0 <= k < a.slots().len() implies {
        &&& (#[trigger] a.slots()[k]).buffer_descriptor.address + 8 <= a.start()
        &&& buffers_within(a.slots()[k], a.end() as int)
    } by {
        assert(a.slots()[k].buffer_descriptor.address == 8 * k);
    }
}

/// Once 8 slots other than the control slot exist, a valid request that
/// needs a new slot fails with `ResourceExhausted`; the control slot does not
/// count, and the control endpoint is not held to that limit.
pub proof fn lemma_slot_limit(a: &DeviceAllocator, b: EndpointBuilder, double_buffered: bool, mps0: u8)
    requires
        a.wf(),
        other_slots(a.slots()) >= DEVICE_ENDPOINT_COUNT,
        b.ep_type is Some,
        b.direction is Some,
        b.max_packet_size is Some,
        b.number is None || 0 < b.number.unwrap() < 16,
        a.needs_new_slot(b, double_buffered),
    ensures
        a.allocation_error(b, double_buffered) == Some(UsbGenError::ResourceExhausted),
        !index_used(a.slots(), 0) && DeviceAllocator::control_bytes(mps0) < a.end() - a.start()
            ==> a.control_error(mps0) is None,
{
}

/// What the peripheral driver needs to set up one endpoint slot.
#[derive(Clone, Copy, Debug)]
pub struct TargetEndpointConfiguration {
    pub ep_address: u8,
    pub ep_type: EndpointType,
    pub tx_enabled: bool,
    pub rx_enabled: bool,
    pub double_buffered: bool,
    pub buffer_descriptor_offset_bytes: u16,
    pub buffer_descriptor_data: [u16; 4],
    pub buffer0_offset_words: u16,
    pub buffer1_offset_words: u16,
    pub buffer0_size_words: u16,
    pub buffer1_size_words: u16,
}

/// A buffer as (offset in words, size in words, byte address, count word),
/// all zero for no buffer; `None` when a receive buffer's size is not one
/// that the size classes give.
pub open spec fn buffer_entry(mem: Option<EndpointMemoryAllocation>, is_rx: bool) -> Option<
    (u16, u16, u16, u16),
> {
    match mem {
        None => Some((0, 0, 0, 0)),
        Some(m) => if !is_rx {
            Some(((m.address / 2) as u16, (m.size / 2) as u16, m.address, 0))
        } else {
            match rx_size_class(m.size as int) {
                Some((s, bits)) => if s == m.size {
                    Some(((m.address / 2) as u16, (m.size / 2) as u16, m.address, bits as u16))
                } else {
                    None
                },
                None => None,
            }
        },
    }
}

fn create_buffer_descriptor(mem: Option<EndpointMemoryAllocation>, is_rx: bool) -> (r: Result<
    (u16, u16, u16, u16),
    UsbGenError,
>)
    ensures
        match buffer_entry(mem, is_rx) {
            Some(e) => r == Ok::<(u16, u16, u16, u16), UsbGenError>(e),
            None => r == Err::<(u16, u16, u16, u16), UsbGenError>(UsbGenError::ConsistencyViolation),
        },
{
    match mem {
        Some(mem) => {
            let count = if is_rx {
                match calculate_count_rx(mem.size) {
                    Ok((size, bits)) => {
                        if size != mem.size {
                            return Err(UsbGenError::ConsistencyViolation);
                        }
                        bits
                    },
                    Err(_) => return Err(UsbGenError::ConsistencyViolation),
                }
            } else {
                0
            };
            Ok((mem.address / 2, mem.size / 2, mem.address, count))
        },
        None => Ok((0, 0, 0, 0)),
    }
}

/// The driver's view of a slot, or why there is none.
pub open spec fn projected(ep: EndpointAllocation) -> Result<TargetEndpointConfiguration, UsbGenError> {
    if ep.double_buffered {
        Err(UsbGenError::Unsupported)
    } else {
        match (buffer_entry(ep.buffer0, false), buffer_entry(ep.buffer1, ep.rx_enabled)) {
            (Some(b0), Some(b1)) => Ok(
                TargetEndpointConfiguration {
                    ep_address: ep.address_index,
                    ep_type: ep.ep_type,
                    tx_enabled: ep.tx_enabled,
                    rx_enabled: ep.rx_enabled,
                    double_buffered: false,
                    buffer_descriptor_offset_bytes: ep.buffer_descriptor.address,
                    buffer_descriptor_data: [b0.2, b0.3, b1.2, b1.3],
                    buffer0_offset_words: b0.0,
                    buffer1_offset_words: b1.0,
                    buffer0_size_words: b0.1,
                    buffer1_size_words: b1.1,
                },
            ),
            _ => Err(UsbGenError::ConsistencyViolation),
        }
    }
}

impl TargetEndpointConfiguration {
    /// The driver's view of a slot: buffer addresses and sizes in 16-bit
    /// words, and the receive count word re-derived from the receive buffer's
    /// size. Double-buffered slots are not supported here.
    pub fn from_allocation(ep: &EndpointAllocation) -> (r: Result<Self, UsbGenError>)
        requires
            ep.address_index < 16,
        ensures
            r == projected(*ep),
    {
        if ep.double_buffered {
            return Err(UsbGenError::Unsupported);
        }
        let b0 = match create_buffer_descriptor(ep.buffer0, false) {
            Ok(b) => b,
            Err(e) => return Err(e),
        };
        let b1 = match create_buffer_descriptor(ep.buffer1, ep.rx_enabled) {
            Ok(b) => b,
            Err(e) => return Err(e),
        };
        let (buffer0_offset_words, buffer0_size_words, buffer0_addr, buffer0_count) = b0;
        let (buffer1_offset_words, buffer1_size_words, buffer1_addr, buffer1_count) = b1;
        Ok(
            TargetEndpointConfiguration {
                ep_address: ep.address_index,
                ep_type: ep.ep_type,
                tx_enabled: ep.tx_enabled,
                rx_enabled: ep.rx_enabled,
                double_buffered: ep.double_buffered,
                buffer_descriptor_offset_bytes: ep.buffer_descriptor.address,
                buffer_descriptor_data: [buffer0_addr, buffer0_count, buffer1_addr, buffer1_count],
                buffer0_offset_words,
                buffer1_offset_words,
                buffer0_size_words,
                buffer1_size_words,
            },
        )
    }
}

/// What the peripheral driver needs to set up the device's endpoints.
pub struct TargetDeviceConfiguration {
    pub buffer_table_address: u16,
    pub endpoints: Vec<TargetEndpointConfiguration>,
}

impl TargetDeviceConfiguration {
    /// The driver's view of every slot, in slot order, with the buffer table at 0;
    /// the error of the first slot that cannot be projected otherwise.
    pub fn from_allocator(dev: &DeviceAllocator) -> (r: Result<Self, UsbGenError>)
        requires
            dev.wf(),
        ensures
            match r {
                Ok(c) => {
                    &&& c.buffer_table_address == 0
                    &&& c.endpoints@.len() == dev.slots().len()
                    &&& forall|k: int|
                        0 <= k < dev.slots().len() ==> projected(#[trigger] dev.slots()[k])
                            == Ok::<TargetEndpointConfiguration, UsbGenError>(c.endpoints@[k])
                },
                Err(e) => exists|k: int|
                    0 <= k < dev.slots().len() && projected(#[trigger] dev.slots()[k]) == Err::<
                        TargetEndpointConfiguration,
                        UsbGenError,
                    >(e) && forall|j: int| 0 <= j < k ==> (#[trigger] projected(dev.slots()[j])) is Ok,
            },
            r matches Err(e) ==> e == UsbGenError::Unsupported,
            (forall|k: int| 0 <= k < dev.slots().len() ==> !(#[trigger] dev.slots()[k]).double_buffered)
                ==> r is Ok,
    {
        proof {
            assert forall|k: int| 0 <= k < dev.slots().len() implies (#[trigger] projected(
                dev.slots()[k],
            )) is Ok || projected(dev.slots()[k]) == Err::<TargetEndpointConfiguration, UsbGenError>(
                UsbGenError::Unsupported,
            ) by {
                assert(rx_ready(dev.slots()[k]));
            }
        }
        let mut endpoints: Vec<TargetEndpointConfiguration> = Vec::new();
        let mut i: usize = 0;
        while i < dev.endpoints.len()
            invariant
                dev.wf(),
                i <= dev.slots().len(),
                endpoints@.len() == i,
                forall|k: int|
                    0 <= k < i ==> projected(#[trigger] dev.slots()[k]) == Ok::<
                        TargetEndpointConfiguration,
                        UsbGenError,
                    >(endpoints@[k]),
            decreases dev.slots().len() - i,
        {
            let ep = &dev.endpoints[i];
            match TargetEndpointConfiguration::from_allocation(ep) {
                Ok(c) => endpoints.push(c),
                Err(e) => {
                    assert(forall|j: int| 0 <= j < i ==> (#[trigger] projected(dev.slots()[j])) is Ok);
                    return Err(e);
                },
            }
            i = i + 1;
        }
        Ok(TargetDeviceConfiguration { buffer_table_address: 0, endpoints })
    }
}

/// An endpoint that has its address: what allocation hands back.
pub struct DeviceEndpoint {
    descriptor: UsbEndpointDescriptor,
}

impl EndpointInfo for DeviceEndpoint {
    closed spec fn endpoint_spec(&self) -> UsbEndpointDescriptor {
        self.descriptor
    }

    fn descriptor(&self) -> (r: &UsbEndpointDescriptor) {
        &self.descriptor
    }
}

impl DeviceEndpoint {
    /// The endpoint of a builder whose fields are all set.
    pub fn from_builder(builder: EndpointBuilder) -> (r: DeviceEndpoint)
        requires
            builder.is_complete(),
        ensures
            r.endpoint_spec() == builder.descriptor_spec(),
    {
        DeviceEndpoint { descriptor: builder.build() }
    }
}

impl EndpointBuilder {
    /// Allocates the endpoint with a single buffer and gives back its descriptor.
    pub fn allocate(self, allocator: &mut DeviceAllocator) -> (r: Result<DeviceEndpoint, UsbGenError>)
        requires
            old(allocator).wf(),
        ensures
            final(allocator).wf(),
            match r {
                Err(e) => {
                    &&& old(allocator).allocation_error(self, false) == Some(e)
                    &&& final(allocator).slots() == old(allocator).slots()
                    &&& final(allocator).start() == old(allocator).start()
                    &&& final(allocator).end() == old(allocator).end()
                },
                Ok(ep) => {
                    &&& old(allocator).allocation_error(self, false) is None
                    &&& ep.endpoint_spec() == (EndpointBuilder {
                        number: Some(old(allocator).target_index(self, false)),
                        ..self
                    }).descriptor_spec()
                    &&& final(allocator).slots() == old(allocator).slots_after(self, false)
                    &&& final(allocator).start() == old(allocator).start() + (if old(
                        allocator,
                    ).needs_new_slot(self, false) {
                        8int
                    } else {
                        0int
                    })
                    &&& final(allocator).end() == old(allocator).end() - (old(allocator).bytes_needed(
                        self,
                        false,
                    ) - (final(allocator).start() - old(allocator).start()))
                },
            },
    {
        match allocator.allocate_from_builder(self, false) {
            Ok(b) => Ok(DeviceEndpoint::from_builder(b)),
            Err(e) => Err(e),
        }
    }

    /// Allocates the endpoint with two buffers and gives back its descriptor.
    pub fn allocate_double_buffered(self, allocator: &mut DeviceAllocator) -> (r: Result<
        DeviceEndpoint,
        UsbGenError,
    >)
        requires
            old(allocator).wf(),
        ensures
            final(allocator).wf(),
            match r {
                Err(e) => {
                    &&& old(allocator).allocation_error(self, true) == Some(e)
                    &&& final(allocator).slots() == old(allocator).slots()
                    &&& final(allocator).start() == old(allocator).start()
                    &&& final(allocator).end() == old(allocator).end()
                },
                Ok(ep) => {
                    &&& old(allocator).allocation_error(self, true) is None
                    &&& ep.endpoint_spec() == (EndpointBuilder {
                        number: Some(old(allocator).target_index(self, true)),
                        ..self
                    }).descriptor_spec()
                    &&& final(allocator).slots() == old(allocator).slots_after(self, true)
                    &&& final(allocator).start() == old(allocator).start() + (if old(
                        allocator,
                    ).needs_new_slot(self, true) {
                        8int
                    } else {
                        0int
                    })
                    &&& final(allocator).end() == old(allocator).end() - (old(allocator).bytes_needed(
                        self,
                        true,
                    ) - (final(allocator).start() - old(allocator).start()))
                },
            },
    {
        match allocator.allocate_from_builder(self, true) {
            Ok(b) => Ok(DeviceEndpoint::from_builder(b)),
            Err(e) => Err(e),
        }
    }
}

impl DeviceBuilder {
    /// Allocates the control endpoint from the device's control packet size.
    pub fn allocate(self, allocator: &mut DeviceAllocator) -> (r: Result<Self, UsbGenError>)
        requires
            old(allocator).wf(),
        ensures
            final(allocator).wf(),
            match r {
                Err(e) => {
                    &&& old(allocator).control_error(self.descriptor.max_packet_size_0) == Some(e)
                    &&& final(allocator).slots() == old(allocator).slots()
                    &&& final(allocator).start() == old(allocator).start()
                    &&& final(allocator).end() == old(allocator).end()
                },
                Ok(b) => {
                    &&& b == self
                    &&& old(allocator).control_error(self.descriptor.max_packet_size_0) is None
                    &&& final(allocator).slots() == old(allocator).slots().push(
                        control_slot(
                            old(allocator).start(),
                            old(allocator).end() as int,
                            self.descriptor.max_packet_size_0 as int,
                        ),
                    )
                    &&& final(allocator).start() == old(allocator).start() + 8
                    &&& final(allocator).end() == old(allocator).end() - (DeviceAllocator::control_bytes(
                        self.descriptor.max_packet_size_0,
                    ) - 8)
                },
            },
    {
        match allocator.allocate_control_endpoint(self.descriptor.max_packet_size_0) {
            Ok(_) => Ok(self),
            Err(e) => Err(e),
        }
    }
}

} // verus!
