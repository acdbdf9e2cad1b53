//! Kinds of listener a server can be built as.

use vstd::prelude::*;

verus! {

/// The transport a listener speaks.
#[derive(Clone, Copy, Debug, PartialEq, Eq, Structural)]
pub enum ZServerType {
    Udp,
    Tcp,
    Dot,
    Doh,
}

impl ZServerType {
    /// The number that stands for the transport in configuration and logs.
    pub open spec fn spec_code(self) -> u8 {
        match self {
            ZServerType::Udp => 1,
            ZServerType::Tcp => 2,
            ZServerType::Dot => 3,
            ZServerType::Doh => 4,
        }
    }

    /// The number that stands for the transport.
    pub fn code(self) -> (r: u8)
        ensures
            r == self.spec_code(),
            1 <= r <= 4,
    {
        match self {
            ZServerType::Udp => 1,
            ZServerType::Tcp => 2,
            ZServerType::Dot => 3,
            ZServerType::Doh => 4,
        }
    }
}

} // verus!
