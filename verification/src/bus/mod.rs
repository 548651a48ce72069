//! Where everything is: the memory map and the port map.
//!
//! The processor has two address spaces, memory and 64 K of ports. Who answers at an
//! address is decided here; what the chips do is not.

pub mod isa;
pub mod memmap;
pub mod pci;

pub use self::memmap::{
    decode_mem, MemRegion, TEXT_CELL, TEXT_COLS, TEXT_LEN, TEXT_ROWS, VRAM_TEXT_BASE,
    VRAM_TEXT_END,
};

use vstd::prelude::*;
use self::pci::PciFunction;

verus! {

/// Who answers at a port.
#[derive(Clone, Copy, Debug, PartialEq, Eq, Structural)]
pub enum IoTarget {
    /// The interrupt controllers.
    Pic { slave: bool },
    /// The timer.
    Pit,
    /// The keyboard controller.
    Keyboard,
    /// The clock and its memory.
    Cmos,
    /// Speaker and refresh.
    SystemControl,
    /// The display controller.
    Crtc,
    /// The serial port.
    Uart,
    /// The network card.
    Net,
    /// The window to the configuration space of PCI.
    PciConfig,
    /// Nobody.
    Unmapped,
}

/// Who answers at a port: first the fixed addresses, then the window of PCI.
#[verifier::allow_in_spec]
pub fn decode_io(port: u16) -> IoTarget
    returns
        (match isa::decode(port) {
            Some(target) => target,
            None => if pci::CONFIG_ADDRESS <= port && port <= pci::CONFIG_LAST {
                IoTarget::PciConfig
            } else {
                IoTarget::Unmapped
            },
        }),
{
    match isa::decode(port) {
        Some(target) => target,
        None => if pci::CONFIG_ADDRESS <= port && port <= pci::CONFIG_LAST {
            IoTarget::PciConfig
        } else {
            IoTarget::Unmapped
        },
    }
}

/// A port of PCI is never one of the fixed ones, and every port but those of the two
/// maps is nobody's.
pub proof fn law_port_map(port: u16)
    ensures
        0xCF8 <= port <= 0xCFF ==> decode_io(port) == IoTarget::PciConfig,
        isa::decode(port) is None && !(0xCF8 <= port <= 0xCFF) ==> decode_io(port)
            == IoTarget::Unmapped,
        isa::decode(port) matches Some(t) ==> decode_io(port) == t && t != IoTarget::PciConfig && t
            != IoTarget::Unmapped,
{
}

/// The clock chip: time and date, two decimal digits in each byte.
#[derive(Clone, Copy, Debug, PartialEq, Eq, Structural)]
pub struct Cmos {
    pub hour: u8,
    pub minute: u8,
    pub second: u8,
    pub century: u8,
    pub year: u8,
    pub month: u8,
    pub day: u8,
}

impl Cmos {
    /// Midnight of the first day of 1980.
    #[verifier::allow_in_spec]
    pub fn new() -> Cmos
        returns
            (Cmos {
                hour: 0,
                minute: 0,
                second: 0,
                century: 0x19,
                year: 0x80,
                month: 0x01,
                day: 0x01,
            }),
    {
        Cmos {
            hour: 0,
            minute: 0,
            second: 0,
            century: 0x19,
            year: 0x80,
            month: 0x01,
            day: 0x01,
        }
    }
}

/// What the firmware has to know of the chips beyond their ports.
#[derive(Clone, Copy)]
pub struct Devices {
    pub cmos: Cmos,
    /// Cursor of the display controller, as a cell number.
    pub cursor: u16,
    /// The system control port.
    pub sysctl: u8,
    /// The host bridge, in a machine that has PCI.
    pub pci: Option<PciFunction>,
}

impl Devices {
    /// Chips as they are at power on. There is no PCI.
    pub open spec fn is_fresh(self) -> bool {
        &&& self.cmos == Cmos::new()
        &&& self.cursor == 0
        &&& self.sysctl == 0
        &&& self.pci is None
    }

    pub fn new() -> (r: Self)
        ensures
            r.is_fresh(),
    {
        Devices { cmos: Cmos::new(), cursor: 0, sysctl: 0, pci: None }
    }
}

impl Default for Devices {
    fn default() -> (r: Self)
        ensures
            r.is_fresh(),
    {
        Devices::new()
    }
}

} // verus!
