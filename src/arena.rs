use vstd::prelude::*;

use crate::dump::{dump_text, render_hex};
use crate::error::{AllocError, ArenaError, ArenaResult, LayoutError};

verus! {

/// Whether `n` is a power of two.
pub open spec fn is_pow2(n: nat) -> bool
    decreases n,
{
    if n == 0 {
        false
    } else if n == 1 {
        true
    } else {
        n % 2 == 0 && is_pow2(n / 2)
    }
}

/// `size` rounded up to the next multiple of `align`.
pub open spec fn padded_size(size: nat, align: nat) -> int
    recommends
        align > 0,
{
    ((size + align - 1) / align as int) * align
}

/// The reason, if any, why a buffer of `capacity` bytes aligned to `alignment`
/// cannot be laid out.
pub open spec fn layout_error(capacity: nat, alignment: nat) -> Option<LayoutError> {
    if capacity == 0 {
        Some(LayoutError::ZeroCapacity)
    } else if alignment == 0 {
        Some(LayoutError::ZeroAlignment)
    } else if !is_pow2(alignment) {
        Some(LayoutError::AlignmentNotPowerOfTwo)
    } else if padded_size(capacity, alignment) > isize::MAX as int {
        Some(LayoutError::SizeOverflow)
    } else {
        None
    }
}

/// The total of a list of region sizes.
pub open spec fn total(sizes: Seq<nat>) -> nat
    decreases sizes.len(),
{
    if sizes.len() == 0 {
        0
    } else {
        total(sizes.drop_last()) + sizes.last()
    }
}

/// Where the `k`-th region starts: right after all earlier ones.
pub open spec fn region_start(sizes: Seq<nat>, k: int) -> nat
    recommends
        0 <= k <= sizes.len(),
{
    total(sizes.take(k))
}

/// Whether `n` is a power of two, by halving it.
fn check_pow2(n: usize) -> (r: bool)
    ensures
        r == is_pow2(n as nat),
{
    if n == 0 {
        return false;
    }
    let mut m: usize = n;
    while m > 1 && m % 2 == 0
        invariant
            m > 0,
            is_pow2(m as nat) == is_pow2(n as nat),
        decreases m,
    {
        m = m / 2;
    }
    m == 1
}

/// Whether `size` rounded up to `align` exceeds `isize::MAX`.
fn padded_overflows(size: usize, align: usize) -> (r: bool)
    requires
        align > 0,
    ensures
        r == (padded_size(size as nat, align as nat) > isize::MAX as int),
{
    let sum: u128 = size as u128 + align as u128 - 1;
    let q: u128 = sum / (align as u128);
    assert(q * (align as u128) <= sum) by (nonlinear_arith)
        requires
            q == sum / (align as u128),
            align > 0,
            sum >= 0,
    ;
    let padded: u128 = q * (align as u128);
    padded > isize::MAX as u128
}

/// The first reason, in the order of `layout_error`, why the layout fails.
fn check_layout(capacity: usize, alignment: usize) -> (r: Option<LayoutError>)
    ensures
        r == layout_error(capacity as nat, alignment as nat),
{
    if capacity == 0 {
        Some(LayoutError::ZeroCapacity)
    } else if alignment == 0 {
        Some(LayoutError::ZeroAlignment)
    } else if !check_pow2(alignment) {
        Some(LayoutError::AlignmentNotPowerOfTwo)
    } else if padded_overflows(capacity, alignment) {
        Some(LayoutError::SizeOverflow)
    } else {
        None
    }
}

/// Relies on `Vec::try_reserve_exact`: it leaves the vector's contents as
/// they are, and reports whether the allocator granted room for `additional`
/// more bytes.
#[verifier::external_body]
fn try_reserve_bytes(v: &mut Vec<u8>, additional: usize) -> (ok: bool)
    ensures
        final(v)@ == old(v)@,
{
    v.try_reserve_exact(additional).is_ok()
}

proof fn lemma_total_step(sizes: Seq<nat>, k: int)
    requires
        0 <= k < sizes.len(),
    ensures
        region_start(sizes, k + 1) == region_start(sizes, k) + sizes[k],
{
    assert(sizes.take(k + 1).drop_last() =~= sizes.take(k));
}

proof fn lemma_start_monotone(sizes: Seq<nat>, i: int, j: int)
    requires
        0 <= i <= j <= sizes.len(),
    ensures
        region_start(sizes, i) <= region_start(sizes, j),
    decreases j - i,
{
    if i < j {
        lemma_start_monotone(sizes, i, j - 1);
        lemma_total_step(sizes, j - 1);
    }
}

/// A handle on a region carved from an arena: where it starts and how many
/// bytes it holds. Its bytes are read and written through the arena.
#[derive(Debug)]
pub struct Region {
    start: usize,
    len: usize,
}

impl View for Region {
    /// The region's first byte and its length.
    type V = (nat, nat);

    closed spec fn view(&self) -> (nat, nat) {
        (self.start as nat, self.len as nat)
    }
}

impl Region {
    /// The offset of the region's first byte in the arena.
    pub fn start(&self) -> (r: usize)
        ensures
            r == self@.0,
    {
        self.start
    }

    /// The number of bytes in the region.
    pub fn len(&self) -> (r: usize)
        ensures
            r == self@.1,
    {
        self.len
    }

    /// Whether the region holds no byte.
    pub fn is_empty(&self) -> (r: bool)
        ensures
            r == (self@.1 == 0),
    {
        self.len == 0
    }
}

/// A bump arena of `CAPACITY` bytes whose layout is aligned to `ALIGNMENT`.
///
/// Regions are carved in order from a single zero-filled buffer; none is
/// freed before the arena. Regions are addressed by their offset in the
/// buffer, so no byte of the arena is reached but through it.
///
/// `ALIGNMENT` governs the buffer's layout as a whole, which `new` checks;
/// regions are packed back to back with no padding for their own types.
/// As no address of the buffer is handed out, its placement in memory is
/// never observed.
pub struct Arena<const CAPACITY: usize, const ALIGNMENT: usize> {
    buffer: Vec<u8>,
    offset: usize,
    reserved: Ghost<Seq<nat>>,
}

impl<const CAPACITY: usize, const ALIGNMENT: usize> Arena<CAPACITY, ALIGNMENT> {
    /// The contents of the buffer.
    pub closed spec fn bytes(&self) -> Seq<u8> {
        self.buffer@
    }

    /// The offset of the next free byte.
    pub closed spec fn used(&self) -> nat {
        self.offset as nat
    }

    /// The sizes of the regions carved so far, in order.
    pub closed spec fn sizes(&self) -> Seq<nat> {
        self.reserved@
    }

    /// The buffer holds exactly `CAPACITY` bytes, and the regions carved so
    /// far fill it from the start, up to the offset, which stays within it.
    pub open spec fn wf(&self) -> bool {
        &&& self.bytes().len() == CAPACITY
        &&& self.used() <= CAPACITY
        &&& self.used() == total(self.sizes())
    }

    /// Builds an arena: checks the layout, reserves the buffer and fills it
    /// with zeros.
    ///
    /// Fails with `ArenaError::Layout` exactly when `layout_error` names a
    /// reason, and with `ArenaError::Alloc` when the allocator cannot provide
    /// the buffer.
    pub fn new() -> (r: ArenaResult<Self>)
        ensures
            layout_error(CAPACITY as nat, ALIGNMENT as nat) matches Some(e) ==> r == Err::<Self, ArenaError>(
                ArenaError::Layout(e),
            ),
            layout_error(CAPACITY as nat, ALIGNMENT as nat) is None ==> (r is Ok || r == Err::<Self, ArenaError>(
                ArenaError::Alloc(AllocError),
            )),
            r matches Ok(a) ==> {
                &&& a.wf()
                &&& a.bytes() == Seq::new(CAPACITY as nat, |i: int| 0u8)
                &&& a.used() == 0
                &&& a.sizes() == Seq::<nat>::empty()
            },
    {
        match check_layout(CAPACITY, ALIGNMENT) {
            Some(e) => Err(ArenaError::Layout(e)),
            None => {
                let mut buffer: Vec<u8> = Vec::new();
                if !try_reserve_bytes(&mut buffer, CAPACITY) {
                    return Err(ArenaError::Alloc(AllocError));
                }
                let mut i: usize = 0;
                while i < CAPACITY
                    invariant
                        i <= CAPACITY,
                        buffer@ == Seq::new(i as nat, |j: int| 0u8),
                    decreases CAPACITY - i,
                {
                    buffer.push(0u8);
                    i = i + 1;
                    assert(buffer@ == Seq::new(i as nat, |j: int| 0u8));
                }
                let arena = Arena { buffer, offset: 0, reserved: Ghost(Seq::empty()) };
                Ok(arena)
            },
        }
    }

    /// Carves a region for one value of type `T`: `size_of::<T>()` bytes
    /// right after the last region, with no padding for `T`'s alignment.
    ///
    /// Succeeds exactly when those bytes fit in what is left of the buffer.
    /// On failure the arena is left as it was.
    pub fn allocate<T>(&mut self) -> (r: ArenaResult<Region>)
        requires
            old(self).wf(),
        ensures
            final(self).wf(),
            final(self).bytes() == old(self).bytes(),
            r is Ok <==> old(self).used() + vstd::layout::size_of::<T>() <= CAPACITY,
            r matches Ok(region) ==> {
                &&& region@ == (old(self).used(), vstd::layout::size_of::<T>())
                &&& region@.0 == region_start(final(self).sizes(), old(self).sizes().len() as int)
                &&& final(self).used() == old(self).used() + vstd::layout::size_of::<T>()
                &&& final(self).sizes() == old(self).sizes().push(vstd::layout::size_of::<T>())
            },
            r is Err ==> {
                &&& r == Err::<Region, ArenaError>(ArenaError::Alloc(AllocError))
                &&& final(self).used() == old(self).used()
                &&& final(self).sizes() == old(self).sizes()
            },
    {
        let size = core::mem::size_of::<T>();
        if size > CAPACITY - self.offset {
            return Err(ArenaError::Alloc(AllocError));
        }
        let region = Region { start: self.offset, len: size };
        self.offset = self.offset + size;
        self.reserved = Ghost(self.reserved@.push(size as nat));
        proof {
            assert(self.reserved@.drop_last() =~= old(self).reserved@);
            assert(self.reserved@.take(old(self).reserved@.len() as int) =~= old(self).reserved@);
        }
        Ok(region)
    }

    /// Reads byte `i` of `region`.
    pub fn read(&self, region: &Region, i: usize) -> (b: u8)
        requires
            self.wf(),
            region@.0 + region@.1 <= self.used(),
            i < region@.1,
        ensures
            b == self.bytes()[region@.0 + i],
    {
        self.buffer[region.start + i]
    }

    /// Writes `value` to byte `i` of `region`; no other byte changes.
    pub fn write(&mut self, region: &Region, i: usize, value: u8)
        requires
            old(self).wf(),
            region@.0 + region@.1 <= old(self).used(),
            i < region@.1,
        ensures
            final(self).wf(),
            final(self).used() == old(self).used(),
            final(self).sizes() == old(self).sizes(),
            final(self).bytes() == old(self).bytes().update(region@.0 + i, value),
    {
        self.buffer.set(region.start + i, value);
    }

    /// Sets every byte of `region` to `value`; no other byte changes.
    pub fn fill(&mut self, region: &Region, value: u8)
        requires
            old(self).wf(),
            region@.0 + region@.1 <= old(self).used(),
        ensures
            final(self).wf(),
            final(self).used() == old(self).used(),
            final(self).sizes() == old(self).sizes(),
            final(self).bytes() == Seq::new(
                CAPACITY as nat,
                |k: int|
                    if region@.0 <= k < region@.0 + region@.1 {
                        value
                    } else {
                        old(self).bytes()[k]
                    },
            ),
    {
        let mut i: usize = 0;
        while i < region.len
            invariant
                self.wf(),
                self.used() == old(self).used(),
                self.sizes() == old(self).sizes(),
                region@.0 + region@.1 <= self.used(),
                i <= region@.1,
                forall|k: int|
                    0 <= k < CAPACITY ==> #[trigger] self.bytes()[k] == if region@.0 <= k < region@.0 + i {
                        value
                    } else {
                        old(self).bytes()[k]
                    },
            decreases region@.1 - i,
        {
            self.buffer.set(region.start + i, value);
            i = i + 1;
        }
        assert(self.bytes() == Seq::new(
            CAPACITY as nat,
            |k: int|
                if region@.0 <= k < region@.0 + region@.1 {
                    value
                } else {
                    old(self).bytes()[k]
                },
        ));
    }

    /// A copy of the bytes of `region`.
    pub fn region_bytes(&self, region: &Region) -> (r: Vec<u8>)
        requires
            self.wf(),
            region@.0 + region@.1 <= self.used(),
        ensures
            r@ == self.bytes().subrange(region@.0 as int, (region@.0 + region@.1) as int),
    {
        let mut out: Vec<u8> = Vec::new();
        let mut i: usize = 0;
        while i < region.len
            invariant
                self.wf(),
                region@.0 + region@.1 <= self.used(),
                i <= region@.1,
                out@ == self.bytes().subrange(region@.0 as int, region@.0 + i as int),
            decreases region@.1 - i,
        {
            out.push(self.buffer[region.start + i]);
            i = i + 1;
            assert(out@ == self.bytes().subrange(region@.0 as int, region@.0 + i as int));
        }
        out
    }

    /// The hex dump of the whole buffer, free bytes included: two lowercase
    /// digits and a space per byte, a line break after every sixteenth.
    /// Every byte of a well-formed arena is readable, so this never fails.
    pub fn dump(&self) -> (r: ArenaResult<String>)
        requires
            self.wf(),
        ensures
            r matches Ok(s) && s@ == dump_text(self.bytes()),
    {
        Ok(render_hex(self.buffer.as_slice()))
    }

    /// The number of bytes in the buffer.
    pub fn capacity(&self) -> (r: usize)
        ensures
            r == CAPACITY,
    {
        CAPACITY
    }

    /// The alignment of the buffer's layout.
    pub fn alignment(&self) -> (r: usize)
        ensures
            r == ALIGNMENT,
    {
        ALIGNMENT
    }

    /// The offset of the next free byte.
    pub fn offset(&self) -> (r: usize)
        ensures
            r == self.used(),
    {
        self.offset
    }

    /// The number of bytes not yet carved.
    pub fn remaining(&self) -> (r: usize)
        requires
            self.wf(),
        ensures
            r == CAPACITY - self.used(),
    {
        CAPACITY - self.offset
    }
}

/// The regions carved from an arena never hold more than its capacity
/// together: their sizes add up to the offset, which stays within the buffer.
pub proof fn lemma_capacity_bound<const CAPACITY: usize, const ALIGNMENT: usize>(
    arena: &Arena<CAPACITY, ALIGNMENT>,
)
    requires
        arena.wf(),
    ensures
        total(arena.sizes()) <= CAPACITY,
        region_start(arena.sizes(), arena.sizes().len() as int) == arena.used(),
{
    assert(arena.sizes().take(arena.sizes().len() as int) =~= arena.sizes());
}

/// Regions carved from an arena lie in the order they were carved: each one
/// starts right where the one before it ends, and two distinct regions share
/// no byte.
pub proof fn lemma_regions_disjoint<const CAPACITY: usize, const ALIGNMENT: usize>(
    arena: &Arena<CAPACITY, ALIGNMENT>,
    i: int,
    j: int,
)
    requires
        arena.wf(),
        0 <= i < j < arena.sizes().len(),
    ensures
        region_start(arena.sizes(), i + 1) == region_start(arena.sizes(), i) + arena.sizes()[i],
        region_start(arena.sizes(), i) + arena.sizes()[i] <= region_start(arena.sizes(), j),
        region_start(arena.sizes(), j) + arena.sizes()[j] <= arena.used(),
{
    let sizes = arena.sizes();
    lemma_total_step(sizes, i);
    lemma_start_monotone(sizes, i + 1, j);
    lemma_total_step(sizes, j);
    lemma_start_monotone(sizes, j + 1, sizes.len() as int);
    lemma_capacity_bound(arena);
}

/// Two dumps of an arena whose bytes did not change between them are equal:
/// the dump depends on the bytes alone.
pub proof fn lemma_dump_repeatable<const CAPACITY: usize, const ALIGNMENT: usize>(
    before: &Arena<CAPACITY, ALIGNMENT>,
    after: &Arena<CAPACITY, ALIGNMENT>,
)
    requires
        before.bytes() == after.bytes(),
    ensures
        dump_text(before.bytes()) == dump_text(after.bytes()),
{
}

} // verus!
