use vstd::prelude::*;

verus! {

/// The arena has no room left for a requested region.
#[derive(Debug, Clone, Copy, PartialEq, Eq, Structural)]
pub struct AllocError;

/// Why a capacity / alignment pair cannot describe the arena's buffer.
#[derive(Debug, Clone, Copy, PartialEq, Eq, Structural)]
pub enum LayoutError {
    /// The capacity is zero.
    ZeroCapacity,
    /// The alignment is zero.
    ZeroAlignment,
    /// The alignment is not a power of two.
    AlignmentNotPowerOfTwo,
    /// The capacity rounded up to the alignment exceeds `isize::MAX`.
    SizeOverflow,
}

/// Every failure the arena reports.
#[derive(Debug, Clone, Copy, PartialEq, Eq, Structural)]
pub enum ArenaError {
    Alloc(AllocError),
    Layout(LayoutError),
}

pub type ArenaResult<T> = Result<T, ArenaError>;

impl From<AllocError> for ArenaError {
    fn from(value: AllocError) -> (r: Self)
        ensures
            r == ArenaError::Alloc(value),
    {
        ArenaError::Alloc(value)
    }
}

impl vstd::std_specs::convert::FromSpecImpl<AllocError> for ArenaError {
    open spec fn obeys_from_spec() -> bool {
        true
    }

    open spec fn from_spec(v: AllocError) -> Self {
        ArenaError::Alloc(v)
    }
}

impl From<LayoutError> for ArenaError {
    fn from(value: LayoutError) -> (r: Self)
        ensures
            r == ArenaError::Layout(value),
    {
        ArenaError::Layout(value)
    }
}

impl vstd::std_specs::convert::FromSpecImpl<LayoutError> for ArenaError {
    open spec fn obeys_from_spec() -> bool {
        true
    }

    open spec fn from_spec(v: LayoutError) -> Self {
        ArenaError::Layout(v)
    }
}

} // verus!
