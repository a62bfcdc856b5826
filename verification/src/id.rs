//! Process-wide identifiers for dispatched scripts and connected
//! executors.  Each generator hands out strictly increasing `u32`
//! values starting at 1, so every identifier is unique for the life
//! of the generator.

use vstd::prelude::*;

verus! {

#[derive(Debug, Clone, Copy, PartialEq, Eq, Structural, Hash)]
struct ID(u32);

/// Identifier of one dispatched script run.
#[derive(Debug, Clone, Copy, PartialEq, Eq, Structural, Hash)]
pub struct ScriptID(ID);

impl ScriptID {
    pub fn to_u32(&self) -> (r: u32)
        ensures
            r == self.spec_u32(),
    {
        self.0.0
    }

    pub closed spec fn spec_u32(self) -> u32 {
        self.0.0
    }

    pub fn from_u32(v: u32) -> (r: Self)
        ensures
            r.spec_u32() == v,
    {
        ScriptID(ID(v))
    }

    /// An identifier is determined by the number it carries, so the
    /// identifier-to-number round trip is the identity in both
    /// directions.
    pub proof fn lemma_u32_determines(a: ScriptID, b: ScriptID)
        requires
            a.spec_u32() == b.spec_u32(),
        ensures
            a == b,
    {
    }
}

/// Identifier of one connected executor.
#[derive(Debug, Clone, Copy, PartialEq, Eq, Structural, Hash)]
pub struct ExecutorID(ID);

impl ExecutorID {
    pub fn to_u32(&self) -> (r: u32)
        ensures
            r == self.spec_u32(),
    {
        self.0.0
    }

    pub closed spec fn spec_u32(self) -> u32 {
        self.0.0
    }

    pub fn from_u32(v: u32) -> (r: Self)
        ensures
            r.spec_u32() == v,
    {
        ExecutorID(ID(v))
    }

    /// An identifier is determined by the number it carries, so the
    /// identifier-to-number round trip is the identity in both
    /// directions.
    pub proof fn lemma_u32_determines(a: ExecutorID, b: ExecutorID)
        requires
            a.spec_u32() == b.spec_u32(),
        ensures
            a == b,
    {
    }
}

/// Strictly increasing counter starting at 1.  The ghost `issued`
/// sequence records every value handed out, in order.
struct IDGenerator {
    next: u32,
    issued: Ghost<Seq<u32>>,
}

impl IDGenerator {
    #[verifier::type_invariant]
    spec fn wf(self) -> bool {
        &&& 1 <= self.next
        &&& forall|i: int| 0 <= i < self.issued@.len() ==> 1 <= #[trigger] self.issued@[i]
            < self.next
        &&& forall|i: int, j: int|
            0 <= i < j < self.issued@.len() ==> self.issued@[i] < self.issued@[j]
    }

    spec fn spec_next(self) -> u32 {
        self.next
    }

    spec fn spec_issued(self) -> Seq<u32> {
        self.issued@
    }

    fn new() -> (r: Self)
        ensures
            r.spec_next() == 1,
            r.spec_issued() == Seq::<u32>::empty(),
    {
        IDGenerator { next: 1, issued: Ghost(Seq::empty()) }
    }

    /// Hands out the next identifier.  The bound on `next` is a machine
    /// limit: a 32-bit counter cannot grow past `u32::MAX`.
    fn gen(&mut self) -> (r: ID)
        requires
            old(self).spec_next() < u32::MAX,
        ensures
            r.0 == old(self).spec_next(),
            final(self).spec_next() == old(self).spec_next() + 1,
            final(self).spec_issued() == old(self).spec_issued().push(r.0),
            1 <= r.0,
            forall|i: int|
                0 <= i < old(self).spec_issued().len() ==> #[trigger] old(self).spec_issued()[i]
                    < r.0,
    {
        proof {
            use_type_invariant(&*self);
        }
        let r = ID(self.next);
        let mut tmp = IDGenerator {
            next: self.next + 1,
            issued: Ghost(self.issued@.push(self.next)),
        };
        std::mem::swap(self, &mut tmp);
        r
    }
}

/// Generator of [`ScriptID`] values.
pub struct ScriptIDGenerator {
    inner: IDGenerator,
}

impl ScriptIDGenerator {
    /// Validity of the generator state; constructors establish it and
    /// `gen` preserves it.
    pub closed spec fn inv(self) -> bool {
        self.inner.wf()
    }

    /// The identifiers handed out so far, in order.
    pub closed spec fn spec_issued(self) -> Seq<u32> {
        self.inner.spec_issued()
    }

    /// The value the next identifier will carry.
    pub closed spec fn spec_next(self) -> u32 {
        self.inner.spec_next()
    }

    pub fn new() -> (r: Self)
        ensures
            r.spec_next() == 1,
            r.spec_issued() == Seq::<u32>::empty(),
            r.inv(),
    {
        let r = ScriptIDGenerator { inner: IDGenerator::new() };
        proof {
            use_type_invariant(&r.inner);
        }
        r
    }

    pub fn gen(&mut self) -> (r: ScriptID)
        requires
            old(self).spec_next() < u32::MAX,
        ensures
            r.spec_u32() == old(self).spec_next(),
            final(self).spec_next() == old(self).spec_next() + 1,
            final(self).spec_issued() == old(self).spec_issued().push(r.spec_u32()),
            1 <= r.spec_u32(),
            forall|i: int|
                0 <= i < old(self).spec_issued().len() ==> #[trigger] old(self).spec_issued()[i]
                    < r.spec_u32(),
            final(self).inv(),
    {
        let r = ScriptID(self.inner.gen());
        proof {
            use_type_invariant(&self.inner);
        }
        r
    }

    /// Identifiers from one generator are pairwise distinct and strictly
    /// monotonic in the order they were produced.
    pub proof fn lemma_issued_distinct(self)
        requires
            self.inv(),
        ensures
            forall|i: int, j: int|
                0 <= i < j < self.spec_issued().len() ==> self.spec_issued()[i]
                    < self.spec_issued()[j],
            forall|i: int, j: int|
                0 <= i < j < self.spec_issued().len() ==> self.spec_issued()[i]
                    != self.spec_issued()[j],
    {
    }
}

impl Default for ScriptIDGenerator {
    fn default() -> (r: Self)
        ensures
            r.spec_next() == 1,
            r.spec_issued() == Seq::<u32>::empty(),
            r.inv(),
    {
        ScriptIDGenerator::new()
    }
}

/// Generator of [`ExecutorID`] values.
pub struct ExecutorIDGenerator {
    inner: IDGenerator,
}

impl ExecutorIDGenerator {
    /// Validity of the generator state; constructors establish it and
    /// `gen` preserves it.
    pub closed spec fn inv(self) -> bool {
        self.inner.wf()
    }

    /// The identifiers handed out so far, in order.
    pub closed spec fn spec_issued(self) -> Seq<u32> {
        self.inner.spec_issued()
    }

    /// The value the next identifier will carry.
    pub closed spec fn spec_next(self) -> u32 {
        self.inner.spec_next()
    }

    pub fn new() -> (r: Self)
        ensures
            r.spec_next() == 1,
            r.spec_issued() == Seq::<u32>::empty(),
            r.inv(),
    {
        let r = ExecutorIDGenerator { inner: IDGenerator::new() };
        proof {
            use_type_invariant(&r.inner);
        }
        r
    }

    pub fn gen(&mut self) -> (r: ExecutorID)
        requires
            old(self).spec_next() < u32::MAX,
        ensures
            r.spec_u32() == old(self).spec_next(),
            final(self).spec_next() == old(self).spec_next() + 1,
            final(self).spec_issued() == old(self).spec_issued().push(r.spec_u32()),
            1 <= r.spec_u32(),
            forall|i: int|
                0 <= i < old(self).spec_issued().len() ==> #[trigger] old(self).spec_issued()[i]
                    < r.spec_u32(),
            final(self).inv(),
    {
        let r = ExecutorID(self.inner.gen());
        proof {
            use_type_invariant(&self.inner);
        }
        r
    }

    /// Identifiers from one generator are pairwise distinct and strictly
    /// monotonic in the order they were produced.
    pub proof fn lemma_issued_distinct(self)
        requires
            self.inv(),
        ensures
            forall|i: int, j: int|
                0 <= i < j < self.spec_issued().len() ==> self.spec_issued()[i]
                    < self.spec_issued()[j],
            forall|i: int, j: int|
                0 <= i < j < self.spec_issued().len() ==> self.spec_issued()[i]
                    != self.spec_issued()[j],
    {
    }
}

impl Default for ExecutorIDGenerator {
    fn default() -> (r: Self)
        ensures
            r.spec_next() == 1,
            r.spec_issued() == Seq::<u32>::empty(),
            r.inv(),
    {
        ExecutorIDGenerator::new()
    }
}

} // verus!
