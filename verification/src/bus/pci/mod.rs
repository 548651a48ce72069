//! PCI: functions and their configuration space.

pub mod host_bridge;
pub mod reg;

use vstd::prelude::*;

verus! {

/// The window to the configuration space: eight ports from here.
pub const CONFIG_ADDRESS: u16 = 0xCF8;
pub const CONFIG_LAST: u16 = 0xCFF;

/// A function of a device, by its configuration space.
#[derive(Clone, Copy)]
pub struct PciFunction {
    pub cfg: [u8; 256],
}

impl PciFunction {
    /// A function with an identity: vendor, device, class, subclass and programming
    /// interface. All else is zero.
    pub fn new(vendor: u16, device: u16, class: u8, subclass: u8, prog_if: u8) -> (r: Self)
        ensures
            r.cfg[reg::VENDOR_ID as int] == vendor % 0x100,
            r.cfg[reg::VENDOR_ID + 1] == vendor / 0x100,
            r.cfg[reg::DEVICE_ID as int] == device % 0x100,
            r.cfg[reg::DEVICE_ID + 1] == device / 0x100,
            r.cfg[reg::CLASS_CODE as int] == prog_if,
            r.cfg[reg::CLASS_CODE + 1] == subclass,
            r.cfg[reg::CLASS_CODE + 2] == class,
            forall|i: int|
                (4 <= i < 9 || 12 <= i < 256) ==> #[trigger] r.cfg[i] == 0,
    {
        let mut cfg: [u8; 256] = [0; 256];
        cfg[reg::VENDOR_ID] = (vendor % 0x100) as u8;
        cfg[reg::VENDOR_ID + 1] = (vendor / 0x100) as u8;
        cfg[reg::DEVICE_ID] = (device % 0x100) as u8;
        cfg[reg::DEVICE_ID + 1] = (device / 0x100) as u8;
        cfg[reg::CLASS_CODE] = prog_if;
        cfg[reg::CLASS_CODE + 1] = subclass;
        cfg[reg::CLASS_CODE + 2] = class;
        PciFunction { cfg }
    }
}

} // verus!
