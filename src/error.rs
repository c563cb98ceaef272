use vstd::prelude::*;

verus! {

/// The ways in which building a device description can fail.
#[derive(Clone, Copy, Debug, PartialEq, Eq, Structural)]
pub enum UsbGenError {
    /// The caller asked for something that cannot be built: a missing
    /// endpoint field, no interfaces, an invalid size or address.
    Configuration,
    /// The packet memory, the endpoint table or the endpoint addresses ran out.
    ResourceExhausted,
    /// An internal check failed; this points at a defect, not at the input.
    ConsistencyViolation,
    /// The request is valid but this stage cannot handle it yet
    /// (double-buffered endpoints in the target configuration).
    Unsupported,
}

} // verus!
