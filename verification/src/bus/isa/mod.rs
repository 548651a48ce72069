//! The ports with fixed addresses, and the interrupt lines.

use vstd::prelude::*;
use crate::bus::IoTarget;

verus! {

/// Interrupt line of the timer.
pub const IRQ_TIMER: u8 = 0;
/// Interrupt line of the keyboard.
pub const IRQ_KEYBOARD: u8 = 1;
/// Interrupt line of the serial port.
pub const IRQ_COM1: u8 = 4;
/// Interrupt line of the network card.
pub const IRQ_NET: u8 = 3;

/// Ports of the network card.
pub const NET_BASE: u16 = 0x300;
pub const NET_LAST: u16 = 0x31F;

/// Who answers at a fixed address.
#[verifier::allow_in_spec]
pub fn decode(port: u16) -> Option<IoTarget>
    returns
        (if port == 0x20 || port == 0x21 {
            Some(IoTarget::Pic { slave: false })
        } else if port == 0xA0 || port == 0xA1 {
            Some(IoTarget::Pic { slave: true })
        } else if 0x40 <= port && port <= 0x43 {
            Some(IoTarget::Pit)
        } else if port == 0x60 || port == 0x64 {
            Some(IoTarget::Keyboard)
        } else if port == 0x61 {
            Some(IoTarget::SystemControl)
        } else if port == 0x70 || port == 0x71 {
            Some(IoTarget::Cmos)
        } else if NET_BASE <= port && port <= NET_LAST {
            Some(IoTarget::Net)
        } else if port == 0x3D4 || port == 0x3D5 {
            Some(IoTarget::Crtc)
        } else if 0x3F8 <= port && port <= 0x3FF {
            Some(IoTarget::Uart)
        } else {
            None
        }),
{
    if port == 0x20 || port == 0x21 {
        Some(IoTarget::Pic { slave: false })
    } else if port == 0xA0 || port == 0xA1 {
        Some(IoTarget::Pic { slave: true })
    } else if 0x40 <= port && port <= 0x43 {
        Some(IoTarget::Pit)
    } else if port == 0x60 || port == 0x64 {
        Some(IoTarget::Keyboard)
    } else if port == 0x61 {
        Some(IoTarget::SystemControl)
    } else if port == 0x70 || port == 0x71 {
        Some(IoTarget::Cmos)
    } else if NET_BASE <= port && port <= NET_LAST {
        Some(IoTarget::Net)
    } else if port == 0x3D4 || port == 0x3D5 {
        Some(IoTarget::Crtc)
    } else if 0x3F8 <= port && port <= 0x3FF {
        Some(IoTarget::Uart)
    } else {
        None
    }
}

} // verus!
