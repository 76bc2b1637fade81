use vstd::prelude::*;

verus! {

/// Address of an actor. The address with all bits set stands for "nobody".
#[derive(Clone, Copy, Debug, PartialEq, Eq, Structural, Hash)]
pub struct Addr {
    bits: u64,
}

impl Addr {
    /// The number behind the address.
    pub closed spec fn spec_bits(self) -> u64 {
        self.bits
    }

    /// Whether this is the null address.
    pub open spec fn spec_is_null(self) -> bool {
        self.spec_bits() == u64::MAX
    }

    /// The address that no actor has.
    pub fn null() -> (addr: Addr)
        ensures
            addr.spec_is_null(),
            addr.spec_bits() == u64::MAX,
    {
        Addr { bits: u64::MAX }
    }

    pub fn from_bits(bits: u64) -> (addr: Addr)
        ensures
            addr.spec_bits() == bits,
    {
        Addr { bits }
    }

    #[verifier::when_used_as_spec(spec_bits)]
    pub fn into_bits(self) -> (bits: u64)
        ensures
            bits == self.spec_bits(),
    {
        self.bits
    }

    #[verifier::when_used_as_spec(spec_is_null)]
    pub fn is_null(self) -> (null: bool)
        ensures
            null == self.spec_is_null(),
    {
        self.bits == u64::MAX
    }

    /// Two addresses with the same bits are the same address.
    pub proof fn lemma_bits_injective(a: Addr, b: Addr)
        requires
            a.spec_bits() == b.spec_bits(),
        ensures
            a == b,
    {
    }
}

} // verus!
