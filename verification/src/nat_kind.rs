//! NAT kinds and their classification from two observed endpoints.

use vstd::prelude::*;

verus! {

/// How a client's NAT maps its source endpoint, as far as the two-port probe
/// can tell. `Public` is declared by a client that sits behind no NAT.
#[derive(Clone, Copy, Debug, PartialEq, Eq, Structural)]
pub enum NatKind {
    Unknown,
    Public,
    Cone,
    Symmetric,
}

} // verus!
