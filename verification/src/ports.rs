//! Where free ports come from.

use vstd::prelude::*;

verus! {

/// Calls `portpicker::pick_unused_port`, which tries ports on this host and
/// gives one that it could bind, or `None` after it has given up.
///
/// The answer depends on the host and on chance, so nothing is claimed of it.
#[verifier::external_body]
pub(crate) fn pick_unused_port() -> (picked: Option<u16>) {
    portpicker::pick_unused_port()
}

} // verus!
