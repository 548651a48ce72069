//! Offsets in the configuration space.

use vstd::prelude::*;

verus! {

pub const VENDOR_ID: usize = 0x00;
pub const DEVICE_ID: usize = 0x02;
/// Programming interface, subclass and class, in this order.
pub const CLASS_CODE: usize = 0x09;

} // verus!
