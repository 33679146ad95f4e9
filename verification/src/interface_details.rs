use vstd::prelude::*;

verus! {

/// One row of the network-interface details table.
#[derive(Debug, PartialEq, Eq)]
pub struct InterfaceDetails {
    pub interface: String,
    pub mac: String,
    pub mtu: u32,
    pub enabled: u8,
}

impl InterfaceDetails {
    /// A blank entry: no names yet, the conventional transmission
    /// unit, and the interface counted as enabled.
    pub fn new() -> (r: InterfaceDetails)
        ensures
            r.interface@ == Seq::<char>::empty(),
            r.mac@ == Seq::<char>::empty(),
            r.mtu == 1500u32,
            r.enabled == 1u8,
    {
        InterfaceDetails {
            interface: String::new(),
            mac: String::new(),
            mtu: 1500,
            enabled: 1,
        }
    }

    /// The details of the host's interfaces. Collection is not
    /// implemented for this platform yet, so the list is empty — the
    /// table still answers queries, with no rows.
    pub fn get_interfaces() -> (r: Vec<InterfaceDetails>)
        ensures
            r@.len() == 0,
    {
        Vec::new()
    }
}

} // verus!
