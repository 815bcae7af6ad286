//! Addressing of the SCD30 CO2 / temperature / humidity sensor on the
//! register bus.
use vstd::prelude::*;

verus! {

/// The sensor's bus address unless configured otherwise.
pub const ADDRESS: u8 = 0x61;

/// A handle on one sensor: the bus address it answers at.
pub struct Scd30 {
    addr: u8,
}

impl Scd30 {
    /// The address that the handle talks to.
    pub closed spec fn address_spec(&self) -> u8 {
        self.addr
    }

    /// A handle on a sensor at the default address.
    pub fn new() -> (r: Self)
        ensures
            r.address_spec() == ADDRESS,
    {
        Self::new_with_address(ADDRESS)
    }

    /// A handle on a sensor at `addr`.
    pub fn new_with_address(addr: u8) -> (r: Self)
        ensures
            r.address_spec() == addr,
    {
        Scd30 { addr }
    }

    /// The address that the handle talks to.
    pub fn address(&self) -> (r: u8)
        ensures
            r == self.address_spec(),
    {
        self.addr
    }
}

} // verus!
