//! The host bridge, which tells an operating system that there is PCI at all.

use vstd::prelude::*;
use crate::bus::pci::{reg, PciFunction};

verus! {

/// The bridge in slot 0: an Intel 440FX, a bridge of the subclass host.
pub fn host_bridge() -> (f: PciFunction)
    ensures
        f.cfg[reg::VENDOR_ID as int] == 0x86,
        f.cfg[reg::VENDOR_ID + 1] == 0x80,
        f.cfg[reg::DEVICE_ID as int] == 0x37,
        f.cfg[reg::DEVICE_ID + 1] == 0x12,
        f.cfg[reg::CLASS_CODE as int] == 0,
        f.cfg[reg::CLASS_CODE + 1] == 0,
        f.cfg[reg::CLASS_CODE + 2] == 6,
        forall|i: int| (4 <= i < 9 || 12 <= i < 256) ==> #[trigger] f.cfg[i] == 0,
{
    PciFunction::new(0x8086, 0x1237, 0x06, 0x00, 0x00)
}

} // verus!
