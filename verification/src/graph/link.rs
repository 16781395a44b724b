use vstd::prelude::*;

verus! {

/// A link from one node's output port to another node's input.
///
/// The first field is the node identifier and the second the port index.
#[derive(Clone, Copy, Debug, Hash, PartialEq, Eq, Structural, PartialOrd, Ord)]
pub struct Link(pub u32, pub u16);

/// The number of distinct port indices, which is the stride between two
/// consecutive node identifiers in a packed key.
pub open spec fn port_stride() -> int {
    0x1_0000
}

impl Link {
    /// The packed key of this link: the node identifier in the high bits and
    /// the port index in the low sixteen bits.
    pub open spec fn key(self) -> int {
        self.0 as int * port_stride() + self.1 as int
    }

    /// The packed key of this link as a `u64`, which holds it exactly.
    pub open spec fn packed(self) -> u64 {
        self.key() as u64
    }

    /// The sentinel value representing a dangling link.
    pub open spec fn spec_dangling() -> Link {
        Link(0xFFFF_FFFF, 0xFFFF)
    }

    /// Returns the sentinel value representing a dangling link.
    #[verifier::when_used_as_spec(spec_dangling)]
    pub fn dangling() -> (link: Link)
        ensures
            link == Link::spec_dangling(),
    {
        Link(0xFFFF_FFFF, 0xFFFF)
    }

    /// Packs this link into a `u64` key.
    ///
    /// The key is unique for every distinct link, since a `u64` is wide enough
    /// to hold both the node identifier and the port index side by side.
    pub fn into_u64(self) -> (key: u64)
        ensures
            key == self.key(),
            key >> 16u64 == self.0 as u64,
            key & 0xFFFFu64 == self.1 as u64,
    {
        let id: u64 = self.0 as u64;
        let port: u64 = self.1 as u64;
        let key: u64 = (id << 16u64) | port;
        assert(key == id * 0x1_0000 + port && key >> 16u64 == id && key & 0xFFFFu64 == port)
            by (bit_vector)
            requires
                id <= 0xFFFF_FFFFu64,
                port <= 0xFFFFu64,
                key == (id << 16u64) | port,
        ;
        key
    }

    /// Packs this link into a `usize` for use as an index.
    ///
    /// The key must be addressable as a `usize`, which always holds where a
    /// `usize` is at least 64 bits wide.
    pub fn into_usize(self) -> (index: usize)
        requires
            self.key() <= usize::MAX,
        ensures
            index == self.key(),
    {
        let key: u64 = self.into_u64();
        key as usize
    }
}

/// Distinct links have distinct keys, and a key gives back both fields.
pub proof fn lemma_key_injective(a: Link, b: Link)
    ensures
        (a.key() == b.key()) <==> (a == b),
        a.key() / port_stride() == a.0,
        a.key() % port_stride() == a.1,
{
    assert(a.key() / port_stride() == a.0 && a.key() % port_stride() == a.1) by (nonlinear_arith)
        requires
            0 <= a.1 < port_stride(),
            port_stride() == 0x1_0000,
            a.key() == a.0 as int * port_stride() + a.1 as int,
    ;
    assert(b.key() / port_stride() == b.0 && b.key() % port_stride() == b.1) by (nonlinear_arith)
        requires
            0 <= b.1 < port_stride(),
            port_stride() == 0x1_0000,
            b.key() == b.0 as int * port_stride() + b.1 as int,
    ;
}

/// Every key fits in a `u64`.
pub proof fn lemma_key_bounded(a: Link)
    ensures
        0 <= a.key() <= u64::MAX,
{
    assert(0 <= a.0 as int * port_stride() + a.1 as int <= u64::MAX) by (nonlinear_arith)
        requires
            0 <= a.0 <= 0xFFFF_FFFF,
            0 <= a.1 <= 0xFFFF,
            port_stride() == 0x1_0000,
    ;
}

} // verus!
