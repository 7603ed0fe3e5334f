//! Hardware usages of a buffer, and the rules that decide which of them can
//! be combined and which changes need a barrier.

use vstd::prelude::*;

verus! {

/// A set of hardware usages, one bit each.
pub type BufferUses = u16;

/// The argument to a read-only mapping.
pub const MAP_READ: u16 = 0x0001;

/// The argument to a write-only mapping.
pub const MAP_WRITE: u16 = 0x0002;

/// The source of a hardware copy.
pub const COPY_SRC: u16 = 0x0004;

/// The destination of a hardware copy.
pub const COPY_DST: u16 = 0x0008;

/// The index buffer used for drawing.
pub const INDEX: u16 = 0x0010;

/// A vertex buffer used for drawing.
pub const VERTEX: u16 = 0x0020;

/// A uniform buffer bound in a bind group.
pub const UNIFORM: u16 = 0x0040;

/// A read-only storage buffer bound in a bind group.
pub const STORAGE_READ_ONLY: u16 = 0x0080;

/// A read-write storage buffer bound in a bind group.
pub const STORAGE_READ_WRITE: u16 = 0x0100;

/// The argument buffer of an indirect draw or dispatch.
pub const INDIRECT: u16 = 0x0200;

/// The destination of resolved query results.
pub const QUERY_RESOLVE: u16 = 0x0400;

/// The usages a buffer may have at the same time.
pub const INCLUSIVE: u16 = 0x02f5;

/// The usages a buffer must have alone.
pub const EXCLUSIVE: u16 = 0x010a;

/// The usages whose accesses the hardware keeps in order by itself.
pub const ORDERED: u16 = 0x02f7;

/// Every usage there is.
pub const ALL_USES: u16 = 0x07ff;

/// Whether the set holds a usage of `mask`.
pub open spec fn intersects(uses: u16, mask: u16) -> bool {
    uses & mask != 0
}

/// Whether the set holds every usage of `mask`.
pub open spec fn contains_all(uses: u16, mask: u16) -> bool {
    uses & mask == mask
}

/// Whether the set is exactly one usage.
pub open spec fn is_single_use(uses: u16) -> bool {
    uses != 0 && uses & ((uses - 1) as u16) == 0
}

/// Whether the set cannot be the state of a buffer: it holds a usage that
/// must stand alone together with something else.
pub open spec fn invalid_state(uses: u16) -> bool {
    intersects(uses, EXCLUSIVE) && !is_single_use(uses)
}

/// Whether going from one state to the other needs no barrier: nothing
/// changes, and the hardware orders every access of the state by itself.
pub open spec fn skip_barrier(from: u16, to: u16) -> bool {
    from == to && contains_all(ORDERED, from)
}

/// Decides `invalid_state`.
pub fn is_invalid_state(uses: u16) -> (b: bool)
    ensures
        b == invalid_state(uses),
{
    if uses & EXCLUSIVE == 0 {
        return false;
    }
    assert(uses & 0x010a != 0 ==> uses != 0) by (bit_vector);
    !(uses & (uses - 1) == 0)
}

/// Decides `skip_barrier`.
pub fn can_skip_barrier(from: u16, to: u16) -> (b: bool)
    ensures
        b == skip_barrier(from, to),
{
    from == to && ORDERED & from == from
}

/// A change of state that the hardware must be told about.
#[derive(Clone, Copy, Debug, PartialEq, Eq, Structural)]
pub struct PendingTransition {
    /// The tracker index of the buffer.
    pub index: u32,
    /// The state the buffer is in.
    pub from: u16,
    /// The state the buffer goes to.
    pub to: u16,
}

/// Two usages of one buffer that cannot stand in one scope.
#[derive(Clone, Copy, Debug, PartialEq, Eq, Structural)]
pub struct ResourceUsageCompatibilityError {
    /// The tracker index of the buffer.
    pub index: u32,
    /// The state the scope had recorded.
    pub current_state: u16,
    /// The usage that was to be added.
    pub new_state: u16,
}

/// A buffer may be read in several ways at once.
pub proof fn law_inclusive_uses_combine(a: u16, b: u16)
    requires
        contains_all(INCLUSIVE, a),
        contains_all(INCLUSIVE, b),
    ensures
        !invalid_state(a | b),
{
    assert(0x02f5u16 & a == a && 0x02f5u16 & b == b ==> (a | b) & 0x010a == 0) by (bit_vector);
}

/// A usage that must stand alone combines with no other usage.
pub proof fn law_exclusive_use_stands_alone(a: u16, b: u16)
    requires
        is_single_use(a),
        intersects(a, EXCLUSIVE),
        b != 0,
        b & a == 0,
    ensures
        invalid_state(a | b),
{
    assert(a & 0x010a != 0 ==> (a | b) & 0x010a != 0) by (bit_vector);
    assert(a != 0 && a & ((a - 1) as u16) == 0 && b != 0 && b & a == 0 ==> !((a | b) != 0 && (a
        | b) & (((a | b) - 1) as u16) == 0)) by (bit_vector);
}

} // verus!
