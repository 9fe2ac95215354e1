//! Units in which the size of a tree node is measured.
use vstd::prelude::*;

verus! {

/// Clamps an exact magnitude into `u64`, the way a saturating sum does.
pub open spec fn saturate(n: int) -> u64 {
    if n > u64::MAX {
        u64::MAX
    } else {
        n as u64
    }
}

/// Saturating addition is commutative and associative, so a sum of sizes
/// does not depend on the order in which it is folded.
pub proof fn lemma_saturating_sum_laws(a: u64, b: u64, c: u64)
    ensures
        saturate(a + b) == saturate(b + a),
        saturate(saturate(a + b) + c) == saturate(a + saturate(b + c)),
        saturate(a + 0) == a,
{
}

/// A unit of measurement for the size of a tree node.
///
/// Sizes are totally ordered, combine by saturating addition, which is
/// commutative and associative, and have a zero.
pub trait Size: Copy + Sized + Eq + Ord {
    /// The magnitude that this size stands for.
    spec fn magnitude(&self) -> u64;

    /// The identity of `plus`.
    fn zero() -> (r: Self)
        ensures
            r.magnitude() == 0,
    ;

    /// Sum of two sizes, saturating at the largest magnitude.
    fn plus(self, other: Self) -> (r: Self)
        ensures
            r.magnitude() == saturate(self.magnitude() + other.magnitude()),
    ;

    /// The magnitude as a plain number, for ratio arithmetic.
    fn to_u64(self) -> (r: u64)
        ensures
            r == self.magnitude(),
    ;
}

/// A number of bytes: the apparent size, or a size rounded up to whole
/// blocks.
#[derive(Debug, Clone, Copy, PartialEq, Eq, PartialOrd, Ord, Hash)]
pub struct Bytes(u64);

/// A number of allocated storage blocks.
#[derive(Debug, Clone, Copy, PartialEq, Eq, PartialOrd, Ord, Hash)]
pub struct Blocks(u64);

fn saturating_sum(a: u64, b: u64) -> (r: u64)
    ensures
        r == saturate(a + b),
{
    if a > u64::MAX - b {
        u64::MAX
    } else {
        a + b
    }
}

impl Bytes {
    /// A size of `value` bytes.
    pub fn new(value: u64) -> (r: Self)
        ensures
            r.magnitude() == value,
    {
        Bytes(value)
    }

    /// The number of bytes.
    pub fn inner(self) -> (r: u64)
        ensures
            r == self.magnitude(),
    {
        self.0
    }
}

impl Size for Bytes {
    closed spec fn magnitude(&self) -> u64 {
        self.0
    }

    fn zero() -> (r: Self) {
        Bytes(0)
    }

    fn plus(self, other: Self) -> (r: Self) {
        Bytes(saturating_sum(self.0, other.0))
    }

    fn to_u64(self) -> (r: u64) {
        self.0
    }
}

impl vstd::std_specs::ops::AddSpecImpl for Bytes {
    open spec fn obeys_add_spec() -> bool {
        true
    }

    open spec fn add_req(self, rhs: Bytes) -> bool {
        true
    }

    closed spec fn add_spec(self, rhs: Bytes) -> Bytes {
        Bytes(saturate(self.0 + rhs.0))
    }
}

impl core::ops::Add for Bytes {
    type Output = Bytes;

    fn add(self, other: Bytes) -> (r: Bytes)
        ensures
            r.magnitude() == saturate(self.magnitude() + other.magnitude()),
    {
        self.plus(other)
    }
}

impl Blocks {
    /// A size of `value` blocks.
    pub fn new(value: u64) -> (r: Self)
        ensures
            r.magnitude() == value,
    {
        Blocks(value)
    }

    /// The number of blocks.
    pub fn inner(self) -> (r: u64)
        ensures
            r == self.magnitude(),
    {
        self.0
    }
}

impl Size for Blocks {
    closed spec fn magnitude(&self) -> u64 {
        self.0
    }

    fn zero() -> (r: Self) {
        Blocks(0)
    }

    fn plus(self, other: Self) -> (r: Self) {
        Blocks(saturating_sum(self.0, other.0))
    }

    fn to_u64(self) -> (r: u64) {
        self.0
    }
}

impl vstd::std_specs::ops::AddSpecImpl for Blocks {
    open spec fn obeys_add_spec() -> bool {
        true
    }

    open spec fn add_req(self, rhs: Blocks) -> bool {
        true
    }

    closed spec fn add_spec(self, rhs: Blocks) -> Blocks {
        Blocks(saturate(self.0 + rhs.0))
    }
}

impl core::ops::Add for Blocks {
    type Output = Blocks;

    fn add(self, other: Blocks) -> (r: Blocks)
        ensures
            r.magnitude() == saturate(self.magnitude() + other.magnitude()),
    {
        self.plus(other)
    }
}

} // verus!
