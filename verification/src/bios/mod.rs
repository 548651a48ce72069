//! The firmware: what a PC has in its ROM, done by the machine itself.
//!
//! At power on every interrupt vector points into the segment of the firmware. When
//! execution comes there, [`Machine::bios_interrupt`] does the service. A vector that
//! an operating system takes over does not come here any more.

pub mod scroll;
pub mod services;
pub mod transfer;

use vstd::prelude::*;
use crate::bus::Cmos;
use crate::cpu::operand::linear;
use crate::cpu::state::{AX, BP, BX, CF, CX, DX, ES, IF, ZF};
use crate::disk::DiskState;
use crate::machine::{BoardState, Machine, State};

verus! {

/// The segment of the firmware.
pub const BIOS_SEG: u16 = 0xF000;

/// Start of the data area.
pub const BDA_SEG: u32 = 0x400;
/// The modifier keys.
pub const BDA_KB_FLAG1: u32 = 0x417;
/// Where the next key is taken from, and put to.
pub const BDA_KB_HEAD: u32 = 0x41A;
pub const BDA_KB_TAIL: u32 = 0x41C;
/// The room for sixteen keys.
pub const KB_BUF_START: u16 = 0x1E;
pub const KB_BUF_END: u16 = 0x3E;

/// The letter of a key, as a small letter; 0 for another key.
#[verifier::allow_in_spec]
pub fn letter_of(sc: u8) -> u8
    returns
        (if sc == 0x10 {
            0x71u8
        } else if sc == 0x11 {
            0x77u8
        } else if sc == 0x12 {
            0x65u8
        } else if sc == 0x13 {
            0x72u8
        } else if sc == 0x14 {
            0x74u8
        } else if sc == 0x15 {
            0x79u8
        } else if sc == 0x16 {
            0x75u8
        } else if sc == 0x17 {
            0x69u8
        } else if sc == 0x18 {
            0x6Fu8
        } else if sc == 0x19 {
            0x70u8
        } else if sc == 0x1E {
            0x61u8
        } else if sc == 0x1F {
            0x73u8
        } else if sc == 0x20 {
            0x64u8
        } else if sc == 0x21 {
            0x66u8
        } else if sc == 0x22 {
            0x67u8
        } else if sc == 0x23 {
            0x68u8
        } else if sc == 0x24 {
            0x6Au8
        } else if sc == 0x25 {
            0x6Bu8
        } else if sc == 0x26 {
            0x6Cu8
        } else if sc == 0x2C {
            0x7Au8
        } else if sc == 0x2D {
            0x78u8
        } else if sc == 0x2E {
            0x63u8
        } else if sc == 0x2F {
            0x76u8
        } else if sc == 0x30 {
            0x62u8
        } else if sc == 0x31 {
            0x6Eu8
        } else if sc == 0x32 {
            0x6Du8
        } else {
            0u8
        }),
{
    if sc == 0x10 {
        0x71u8
    } else if sc == 0x11 {
        0x77u8
    } else if sc == 0x12 {
        0x65u8
    } else if sc == 0x13 {
        0x72u8
    } else if sc == 0x14 {
        0x74u8
    } else if sc == 0x15 {
        0x79u8
    } else if sc == 0x16 {
        0x75u8
    } else if sc == 0x17 {
        0x69u8
    } else if sc == 0x18 {
        0x6Fu8
    } else if sc == 0x19 {
        0x70u8
    } else if sc == 0x1E {
        0x61u8
    } else if sc == 0x1F {
        0x73u8
    } else if sc == 0x20 {
        0x64u8
    } else if sc == 0x21 {
        0x66u8
    } else if sc == 0x22 {
        0x67u8
    } else if sc == 0x23 {
        0x68u8
    } else if sc == 0x24 {
        0x6Au8
    } else if sc == 0x25 {
        0x6Bu8
    } else if sc == 0x26 {
        0x6Cu8
    } else if sc == 0x2C {
        0x7Au8
    } else if sc == 0x2D {
        0x78u8
    } else if sc == 0x2E {
        0x63u8
    } else if sc == 0x2F {
        0x76u8
    } else if sc == 0x30 {
        0x62u8
    } else if sc == 0x31 {
        0x6Eu8
    } else if sc == 0x32 {
        0x6Du8
    } else {
        0u8
    }
}

/// The character of a key of the digits and signs; 0 for another key.
#[verifier::allow_in_spec]
pub fn sign_of(sc: u8) -> u8
    returns
        (if sc == 0x02 {
            0x31u8
        } else if sc == 0x03 {
            0x32u8
        } else if sc == 0x04 {
            0x33u8
        } else if sc == 0x05 {
            0x34u8
        } else if sc == 0x06 {
            0x35u8
        } else if sc == 0x07 {
            0x36u8
        } else if sc == 0x08 {
            0x37u8
        } else if sc == 0x09 {
            0x38u8
        } else if sc == 0x0A {
            0x39u8
        } else if sc == 0x0B {
            0x30u8
        } else if sc == 0x0C {
            0x2Du8
        } else if sc == 0x0D {
            0x3Du8
        } else if sc == 0x1A {
            0x5Bu8
        } else if sc == 0x1B {
            0x5Du8
        } else if sc == 0x27 {
            0x3Bu8
        } else if sc == 0x28 {
            0x27u8
        } else if sc == 0x29 {
            0x60u8
        } else if sc == 0x2B {
            0x5Cu8
        } else if sc == 0x33 {
            0x2Cu8
        } else if sc == 0x34 {
            0x2Eu8
        } else if sc == 0x35 {
            0x2Fu8
        } else {
            0u8
        }),
{
    if sc == 0x02 {
        0x31u8
    } else if sc == 0x03 {
        0x32u8
    } else if sc == 0x04 {
        0x33u8
    } else if sc == 0x05 {
        0x34u8
    } else if sc == 0x06 {
        0x35u8
    } else if sc == 0x07 {
        0x36u8
    } else if sc == 0x08 {
        0x37u8
    } else if sc == 0x09 {
        0x38u8
    } else if sc == 0x0A {
        0x39u8
    } else if sc == 0x0B {
        0x30u8
    } else if sc == 0x0C {
        0x2Du8
    } else if sc == 0x0D {
        0x3Du8
    } else if sc == 0x1A {
        0x5Bu8
    } else if sc == 0x1B {
        0x5Du8
    } else if sc == 0x27 {
        0x3Bu8
    } else if sc == 0x28 {
        0x27u8
    } else if sc == 0x29 {
        0x60u8
    } else if sc == 0x2B {
        0x5Cu8
    } else if sc == 0x33 {
        0x2Cu8
    } else if sc == 0x34 {
        0x2Eu8
    } else if sc == 0x35 {
        0x2Fu8
    } else {
        0u8
    }
}

/// The same under a shift key.
#[verifier::allow_in_spec]
pub fn shifted_sign_of(sc: u8) -> u8
    returns
        (if sc == 0x02 {
            0x21u8
        } else if sc == 0x03 {
            0x40u8
        } else if sc == 0x04 {
            0x23u8
        } else if sc == 0x05 {
            0x24u8
        } else if sc == 0x06 {
            0x25u8
        } else if sc == 0x07 {
            0x5Eu8
        } else if sc == 0x08 {
            0x26u8
        } else if sc == 0x09 {
            0x2Au8
        } else if sc == 0x0A {
            0x28u8
        } else if sc == 0x0B {
            0x29u8
        } else if sc == 0x0C {
            0x5Fu8
        } else if sc == 0x0D {
            0x2Bu8
        } else if sc == 0x1A {
            0x7Bu8
        } else if sc == 0x1B {
            0x7Du8
        } else if sc == 0x27 {
            0x3Au8
        } else if sc == 0x28 {
            0x22u8
        } else if sc == 0x29 {
            0x7Eu8
        } else if sc == 0x2B {
            0x7Cu8
        } else if sc == 0x33 {
            0x3Cu8
        } else if sc == 0x34 {
            0x3Eu8
        } else if sc == 0x35 {
            0x3Fu8
        } else {
            0u8
        }),
{
    if sc == 0x02 {
        0x21u8
    } else if sc == 0x03 {
        0x40u8
    } else if sc == 0x04 {
        0x23u8
    } else if sc == 0x05 {
        0x24u8
    } else if sc == 0x06 {
        0x25u8
    } else if sc == 0x07 {
        0x5Eu8
    } else if sc == 0x08 {
        0x26u8
    } else if sc == 0x09 {
        0x2Au8
    } else if sc == 0x0A {
        0x28u8
    } else if sc == 0x0B {
        0x29u8
    } else if sc == 0x0C {
        0x5Fu8
    } else if sc == 0x0D {
        0x2Bu8
    } else if sc == 0x1A {
        0x7Bu8
    } else if sc == 0x1B {
        0x7Du8
    } else if sc == 0x27 {
        0x3Au8
    } else if sc == 0x28 {
        0x22u8
    } else if sc == 0x29 {
        0x7Eu8
    } else if sc == 0x2B {
        0x7Cu8
    } else if sc == 0x33 {
        0x3Cu8
    } else if sc == 0x34 {
        0x3Eu8
    } else if sc == 0x35 {
        0x3Fu8
    } else {
        0u8
    }
}

/// The keys that always give the same character: enter, backspace, tab, escape and
/// space.
#[verifier::allow_in_spec]
pub fn fixed_key(sc: u8) -> u8
    returns
        (if sc == 0x1C {
            13u8
        } else if sc == 0x0E {
            8u8
        } else if sc == 0x0F {
            9u8
        } else if sc == 0x01 {
            27u8
        } else if sc == 0x39 {
            32u8
        } else {
            0u8
        }),
{
    if sc == 0x1C {
        13u8
    } else if sc == 0x0E {
        8u8
    } else if sc == 0x0F {
        9u8
    } else if sc == 0x01 {
        27u8
    } else if sc == 0x39 {
        32u8
    } else {
        0u8
    }
}

/// The control character of a key that is no letter; 0 for none.
#[verifier::allow_in_spec]
pub fn control_key(sc: u8) -> u8
    returns
        (if sc == 0x1A {
            0x1Bu8
        } else if sc == 0x2B {
            0x1Cu8
        } else if sc == 0x1B {
            0x1Du8
        } else if sc == 0x07 {
            0x1Eu8
        } else if sc == 0x0C {
            0x1Fu8
        } else {
            fixed_key(sc)
        }),
{
    if sc == 0x1A {
        0x1Bu8
    } else if sc == 0x2B {
        0x1Cu8
    } else if sc == 0x1B {
        0x1Du8
    } else if sc == 0x07 {
        0x1Eu8
    } else if sc == 0x0C {
        0x1Fu8
    } else {
        fixed_key(sc)
    }
}

/// The character of a key on a keyboard of the United States; nothing for a key
/// that has none.
#[verifier::allow_in_spec]
pub fn scancode_to_ascii(sc: u8, shift: bool, ctrl: bool) -> Option<u8>
    returns
        (if ctrl {
            if letter_of(sc) != 0 {
                Some((letter_of(sc) % 32) as u8)
            } else {
                Some(control_key(sc))
            }
        } else if letter_of(sc) != 0 {
            Some(
                (if shift {
                    letter_of(sc) - 32
                } else {
                    letter_of(sc) as int
                }) as u8,
            )
        } else {
            let c = if shift {
                shifted_sign_of(sc)
            } else {
                sign_of(sc)
            };
            if c != 0 {
                Some(c)
            } else if fixed_key(sc) != 0 {
                Some(fixed_key(sc))
            } else {
                None
            }
        }),
{
    let l: u8 = letter_of(sc);
    if ctrl {
        if l != 0 {
            Some(l % 32)
        } else {
            Some(control_key(sc))
        }
    } else if l != 0 {
        if shift {
            Some(l - 32)
        } else {
            Some(l)
        }
    } else {
        let c: u8 = if shift {
            shifted_sign_of(sc)
        } else {
            sign_of(sc)
        };
        if c != 0 {
            Some(c)
        } else if fixed_key(sc) != 0 {
            Some(fixed_key(sc))
        } else {
            None
        }
    }
}

/// A letter under Ctrl is a control character: its place in the alphabet. Under shift
/// it is the capital letter.
pub proof fn law_letters(sc: u8)
    requires
        letter_of(sc) != 0,
    ensures
        scancode_to_ascii(sc, false, false) == Some(letter_of(sc)),
        scancode_to_ascii(sc, true, false) == Some((letter_of(sc) - 32) as u8),
        scancode_to_ascii(sc, false, true) == Some((letter_of(sc) - 96) as u8),
        scancode_to_ascii(sc, true, true) == scancode_to_ascii(sc, false, true),
{
}

/// The bit of a modifier key among the modifier keys; 0 for another key.
#[verifier::allow_in_spec]
pub fn modifier_bit(code: u8) -> u8
    returns
        (if code == 0x2A {
            2u8
        } else if code == 0x36 {
            1u8
        } else if code == 0x1D {
            4u8
        } else if code == 0x38 {
            8u8
        } else {
            0u8
        }),
{
    if code == 0x2A {
        2u8
    } else if code == 0x36 {
        1u8
    } else if code == 0x1D {
        4u8
    } else if code == 0x38 {
        8u8
    } else {
        0u8
    }
}

/// The place after a place in the room for keys.
#[verifier::allow_in_spec]
pub fn next_key(at: u16) -> u16
    returns
        (if at >= 0x3C {
            KB_BUF_START
        } else {
            at.wrapping_add(2)
        }),
{
    if at >= 0x3C {
        KB_BUF_START
    } else {
        at.wrapping_add(2)
    }
}

/// Address of a cell of the text screen.
#[verifier::allow_in_spec]
pub fn cell(row: u32, col: u32) -> u32
    requires
        row <= 0x1_0000,
        col <= 0x1_0000,
    returns
        (0xB_8000 + (row * 80 + col) * 2) as u32,
{
    0xB_8000 + (row * 80 + col) * 2
}

impl State {
    pub open spec fn with_board(self, board: BoardState) -> State {
        State { board, ..self }
    }

    pub open spec fn with_ax(self, v: u32) -> State {
        self.with_cpu(self.cpu.with_reg(AX, v))
    }

    // ---- power on ----

    /// The date and the model in the last bytes of the ROM.
    #[verifier::opaque]
    pub open spec fn rom_id_installed(self) -> State {
        self.write8(0xF_FFF5, 0x30).write8(0xF_FFF6, 0x38).write8(0xF_FFF7, 0x2F).write8(
            0xF_FFF8,
            0x30,
        ).write8(0xF_FFF9, 0x38).write8(0xF_FFFA, 0x2F).write8(0xF_FFFB, 0x32).write8(
            0xF_FFFC,
            0x36,
        ).write8(0xF_FFFE, 0xFE).write8(0xF_FFFF, 0x00)
    }

    /// Interrupt vectors `n` and on, each to its own entry of the firmware.
    #[verifier::opaque]
    pub open spec fn vectors_from(self, n: nat) -> State
        decreases 256 - n,
    {
        if n >= 256 {
            self
        } else {
            self.write16((4 * n) as u32, n as u16).write16(
                (4 * n + 2) as u32,
                BIOS_SEG,
            ).vectors_from(n + 1)
        }
    }

    /// Cursor positions of pages `p` and on.
    #[verifier::opaque]
    pub open spec fn cursors_from(self, p: nat) -> State
        decreases 8 - p,
    {
        if p >= 8 {
            self
        } else {
            self.write16((0x450 + 2 * p) as u32, 0).cursors_from(p + 1)
        }
    }

    /// The data area: ports, devices, memory size, the screen and the keyboard.
    #[verifier::opaque]
    pub open spec fn data_area_installed(self) -> State {
        self.write16(0x400, 0x3F8).write16(0x408, 0x378).write16(0x410, 0x0221).write16(
            0x413,
            640,
        ).write8(0x449, 3).write16(0x44A, 80).write16(0x44C, 0x1000).write16(
            0x44E,
            0,
        ).cursors_from(0).write16(0x460, 0x0607).write8(0x462, 0).write16(0x463, 0x3D4).write16(
            BDA_KB_HEAD,
            KB_BUF_START,
        ).write16(BDA_KB_TAIL, KB_BUF_START).write16(0x480, KB_BUF_START).write16(
            0x482,
            KB_BUF_END,
        ).write8(0x475, 0).write8(0x484, 24)
    }

    /// An interrupt controller started: where its vectors are, how the two are
    /// wired, and which lines are closed.
    #[verifier::opaque]
    pub open spec fn pic_started(self, port: u16, base: u8, wiring: u8, mask: u8) -> State {
        self.io_write(port, 1, 0x11).io_write((port + 1) as u16, 1, base as u32).io_write(
            (port + 1) as u16,
            1,
            wiring as u32,
        ).io_write((port + 1) as u16, 1, 0x01).io_write((port + 1) as u16, 1, mask as u32)
    }

    /// The timer: 18.2 ticks a second, and the refresh.
    #[verifier::opaque]
    pub open spec fn pit_started(self) -> State {
        self.io_write(0x43, 1, 0x36).io_write(0x40, 1, 0).io_write(0x40, 1, 0).io_write(
            0x43,
            1,
            0x54,
        ).io_write(0x41, 1, 18)
    }

    /// The machine as the firmware hands it over.
    #[verifier::opaque]
    pub open spec fn self_tested(self) -> State {
        self.rom_id_installed().vectors_from(0).data_area_installed().pic_started(
            0x20,
            0x08,
            0x04,
            0xF8,
        ).pic_started(0xA0, 0x70, 0x02, 0xFF).pit_started()
    }

    // ---- the keyboard ----

    /// A key put into the queue; a full queue drops it.
    #[verifier::opaque]
    pub open spec fn key_queued(self, entry: u16) -> State {
        let (s1, tail) = self.read16(BDA_KB_TAIL);
        let (s2, head) = s1.read16(BDA_KB_HEAD);
        if next_key(tail) == head {
            s2
        } else {
            s2.write16((BDA_SEG + tail) as u32, entry).write16(BDA_KB_TAIL, next_key(tail))
        }
    }

    /// The next key of the queue.
    #[verifier::opaque]
    pub open spec fn peek_key(self) -> (State, Option<u16>) {
        let (s1, head) = self.read16(BDA_KB_HEAD);
        let (s2, tail) = s1.read16(BDA_KB_TAIL);
        if head == tail {
            (s2, None)
        } else {
            let (s3, v) = s2.read16((BDA_SEG + head) as u32);
            (s3, Some(v))
        }
    }

    /// The next key taken out of the queue.
    #[verifier::opaque]
    pub open spec fn take_key(self) -> (State, Option<u16>) {
        let (s1, head) = self.read16(BDA_KB_HEAD);
        let (s2, tail) = s1.read16(BDA_KB_TAIL);
        if head == tail {
            (s2, None)
        } else {
            let (s3, v) = s2.read16((BDA_SEG + head) as u32);
            (s3.write16(BDA_KB_HEAD, next_key(head)), Some(v))
        }
    }

    /// One byte from the keyboard: a modifier key changes the modifiers, the release
    /// of another key is nothing, and any other key goes into the queue.
    #[verifier::opaque]
    pub open spec fn keyboard_served(self) -> State {
        if self.latch(0x64) % 2 == 0 {
            self
        } else {
            let (s, v) = self.io_read(0x60, 1);
            let sc = (v % 0x100) as u8;
            let code = (sc % 0x80) as u8;
            let released = sc >= 0x80;
            if sc == 0xFF || sc == 0xE0 {
                s
            } else if modifier_bit(code) != 0 {
                let (t, f) = s.read8(BDA_KB_FLAG1);
                t.write8(
                    BDA_KB_FLAG1,
                    if released {
                        f & !modifier_bit(code)
                    } else {
                        f | modifier_bit(code)
                    },
                )
            } else if released {
                s
            } else {
                let (t, f) = s.read8(BDA_KB_FLAG1);
                let a = match scancode_to_ascii(code, f & 3 != 0, f & 4 != 0) {
                    Some(a) => a,
                    None => 0,
                };
                t.key_queued((0x100 * code + a) as u16)
            }
        }
    }

    // ---- the screen ----

    pub open spec fn cursor_pos(self) -> (u32, u32) {
        ((self.board.devices.cursor / 80) as u32, (self.board.devices.cursor % 80) as u32)
    }

    pub open spec fn with_cursor(self, row: u32, col: u32) -> State {
        self.with_board(
            BoardState {
                devices: crate::bus::Devices {
                    cursor: ((row * 80 + col) % 0x1_0000) as u16,
                    ..self.board.devices
                },
                ..self.board
            },
        )
    }

    /// A cell written.
    #[verifier::opaque]
    pub open spec fn cell_written(self, row: u32, col: u32, ch: u8, attr: u8) -> State {
        self.write8(cell(row, col), ch).write8((cell(row, col) + 1) as u32, attr)
    }

    /// Cells from column `c` to `right` copied from one row to another.
    #[verifier::opaque]
    pub open spec fn cells_copied(self, from: u32, to: u32, c: nat, right: nat) -> State
        decreases right + 1 - c,
    {
        if c > right {
            self
        } else {
            let (s, v) = self.read8(cell(from, c as u32));
            let (t, a) = s.read8((cell(from, c as u32) + 1) as u32);
            t.cell_written(to, c as u32, v, a).cells_copied(from, to, c + 1, right)
        }
    }

    /// Blank cells from column `c` to `right`.
    #[verifier::opaque]
    pub open spec fn cells_blanked(self, row: u32, c: nat, right: nat, attr: u8) -> State
        decreases right + 1 - c,
    {
        if c > right {
            self
        } else {
            self.cell_written(row, c as u32, 0x20, attr).cells_blanked(row, c + 1, right, attr)
        }
    }

    /// Blank rows from `r` to `bottom`.
    #[verifier::opaque]
    pub open spec fn rows_blanked(self, r: nat, bottom: nat, left: nat, right: nat, attr: u8) -> State
        decreases bottom + 1 - r,
    {
        if r > bottom {
            self
        } else {
            self.cells_blanked(r as u32, left, right, attr).rows_blanked(
                r + 1,
                bottom,
                left,
                right,
                attr,
            )
        }
    }

    /// Rows from `r` on, each replaced by the one below it, down to `bottom`.
    #[verifier::opaque]
    pub open spec fn rows_up(self, r: nat, bottom: nat, left: nat, right: nat) -> State
        decreases bottom - r,
    {
        if r >= bottom {
            self
        } else {
            self.cells_copied((r + 1) as u32, r as u32, left, right).rows_up(
                r + 1,
                bottom,
                left,
                right,
            )
        }
    }

    /// Rows from `r` up, each replaced by the one above it, up to below `top`.
    #[verifier::opaque]
    pub open spec fn rows_down(self, r: nat, top: nat, left: nat, right: nat) -> State
        decreases r,
    {
        if r <= top {
            self
        } else {
            self.cells_copied((r - 1) as u32, r as u32, left, right).rows_down(
                (r - 1) as nat,
                top,
                left,
                right,
            )
        }
    }

    /// A window moved by one row.
    #[verifier::opaque]
    pub open spec fn moved_once(
        self,
        top: nat,
        left: nat,
        bottom: nat,
        right: nat,
        attr: u8,
        up: bool,
    ) -> State {
        if up {
            self.rows_up(top, bottom, left, right).cells_blanked(bottom as u32, left, right, attr)
        } else {
            self.rows_down(bottom, top, left, right).cells_blanked(top as u32, left, right, attr)
        }
    }

    /// A window moved by `n` rows.
    #[verifier::opaque]
    pub open spec fn moved(
        self,
        n: nat,
        top: nat,
        left: nat,
        bottom: nat,
        right: nat,
        attr: u8,
        up: bool,
    ) -> State
        decreases n,
    {
        if n == 0 {
            self
        } else {
            self.moved_once(top, left, bottom, right, attr, up).moved(
                (n - 1) as nat,
                top,
                left,
                bottom,
                right,
                attr,
                up,
            )
        }
    }

    /// A window of the screen moved up or down; by no rows it is cleared.
    #[verifier::opaque]
    pub open spec fn scrolled(
        self,
        top: nat,
        left: nat,
        bottom0: nat,
        right0: nat,
        lines: u8,
        attr: u8,
        up: bool,
    ) -> State {
        let bottom: nat = if bottom0 > 24 { 24 } else { bottom0 };
        let right: nat = if right0 > 79 { 79 } else { right0 };
        if top > bottom || left > right {
            self
        } else if lines == 0 {
            self.cells_blanked(
                (if up { bottom } else { top }) as u32,
                left,
                right,
                attr,
            ).rows_blanked(top, bottom, left, right, attr)
        } else {
            let rows: nat = (bottom - top + 1) as nat;
            self.moved(
                if lines as nat > rows { rows } else { lines as nat },
                top,
                left,
                bottom,
                right,
                attr,
                up,
            )
        }
    }

    /// A character at the cursor, with the attribute that is there, or grey.
    #[verifier::opaque]
    pub open spec fn char_put(self, row: u32, col: u32, c: u8) -> State {
        let a = cell(row, col);
        let s = self.write8(a, c);
        let (t, old_attr) = s.read8((a + 1) as u32);
        if old_attr == 0 {
            t.write8((a + 1) as u32, 7)
        } else {
            t
        }
    }

    /// A character noted as sent to the console.
    #[verifier::opaque]
    pub open spec fn console_noted(self, c: u8) -> State {
        self.with_board(BoardState { console: self.board.console.push(c), ..self.board })
    }

    /// The cursor put to a place that may be one too far: it wraps at the right edge,
    /// and the screen scrolls at the bottom.
    #[verifier::opaque]
    pub open spec fn cursor_settled(self, row: u32, col: u32) -> State {
        let (row1, col1) = if col >= 80 { ((row + 1) as u32, 0u32) } else { (row, col) };
        if row1 >= 25 {
            self.scrolled(0, 0, 24, 79, 1, 7, true).with_cursor(24, col1)
        } else {
            self.with_cursor(row1, col1)
        }
    }

    /// A character as a teletype takes it: it moves the cursor, wraps at the right
    /// edge and scrolls at the bottom.
    #[verifier::opaque]
    pub open spec fn typed(self, c: u8) -> State {
        let s = self.console_noted(c);
        let (row, col) = s.cursor_pos();
        if c == 13 {
            s.cursor_settled(row, 0)
        } else if c == 10 {
            s.cursor_settled((row + 1) as u32, col)
        } else if c == 8 {
            s.cursor_settled(row, if col == 0 { 0 } else { (col - 1) as u32 })
        } else if c == 7 {
            s.cursor_settled(row, col)
        } else if c == 9 {
            s.cursor_settled(row, ((col / 8 + 1) * 8) as u32)
        } else {
            s.char_put(row, col, c).cursor_settled(row, (col + 1) as u32)
        }
    }

    /// A character repeated from cell `idx` on, to the end of the screen at most.
    #[verifier::opaque]
    pub open spec fn cells_filled(self, idx: nat, n: nat, ch: u8, attr: Option<u8>) -> State
        decreases n,
    {
        if n == 0 || idx >= 2000 {
            self
        } else {
            let a = (0xB_8000 + 2 * idx) as u32;
            let s = self.write8(a, ch);
            let t = match attr {
                Some(x) => s.write8((a + 1) as u32, x),
                None => s,
            };
            t.cells_filled(idx + 1, (n - 1) as nat, ch, attr)
        }
    }

    /// A string written from a place on: characters `i` to `count` of it.
    #[verifier::opaque]
    pub open spec fn string_put(
        self,
        src: u32,
        i: nat,
        count: nat,
        both: bool,
        attr: u8,
        row: nat,
        col: nat,
    ) -> State
        decreases count - i,
    {
        if i >= count {
            self
        } else {
            let at = (src + (if both { 2 * i } else { i })) as u32;
            let (s, ch) = self.read8(at);
            let (t, a) = if both { s.read8((at + 1) as u32) } else { (s, attr) };
            if ch == 10 {
                t.string_put(src, i + 1, count, both, attr, row + 1, 0)
            } else if ch == 13 {
                t.string_put(src, i + 1, count, both, attr, row, 0)
            } else {
                let u = if row < 25 && col < 80 {
                    t.cell_written(row as u32, col as u32, ch, a)
                } else {
                    t
                };
                u.string_put(src, i + 1, count, both, attr, row, col + 1)
            }
        }
    }

    /// The video services. A service that the firmware does not have is nothing.
    #[verifier::opaque]
    pub open spec fn video_served(self) -> Option<State> {
        let c = self.cpu;
        let ah = (c.regs[AX as int] / 0x100 % 0x100) as u8;
        let al = (c.regs[AX as int] % 0x100) as u8;
        let bh = (c.regs[BX as int] / 0x100 % 0x100) as u8;
        let ch = (c.regs[CX as int] / 0x100 % 0x100) as u8;
        let cl = (c.regs[CX as int] % 0x100) as u8;
        let dh = (c.regs[DX as int] / 0x100 % 0x100) as u8;
        let dl = (c.regs[DX as int] % 0x100) as u8;
        let (row, col) = self.cursor_pos();
        if ah == 0x00 {
            Some(
                self.with_board(
                    BoardState {
                        video_modes: vstd::array::spec_array_update(
                            self.board.video_modes,
                            al as int % 0x80,
                            true,
                        ),
                        ..self.board
                    },
                ),
            )
        } else if ah == 0x01 || ah == 0x05 || ah == 0x10 || ah == 0x12 {
            Some(self)
        } else if ah == 0x02 {
            Some(self.with_cursor(dh as u32, dl as u32))
        } else if ah == 0x03 {
            Some(
                self.with_cpu(
                    c.with_reg(DX, (0x100 * row + col) as u32).with_reg(CX, 0x0607),
                ),
            )
        } else if ah == 0x0E {
            Some(self.typed(al))
        } else if ah == 0xEF {
            Some(self.with_cpu(c.with_reg(DX, 0xFFFF)))
        } else if ah == 0x1A || ah == 0x1B {
            Some(
                self.with_cpu(c.with_reg(AX, (0x100 * ah) as u32).with_reg(BX, 2)),
            )
        } else if ah == 0x11 {
            if al == 0x30 {
                Some(
                    self.with_cpu(
                        c.with_reg(CX, 16).with_reg(DX, (0x100 * dh + 24) as u32).with_reg(
                            BP,
                            0,
                        ).with_sreg(ES, 0),
                    ),
                )
            } else {
                Some(self)
            }
        } else if ah == 0x06 || ah == 0x07 {
            Some(
                self.scrolled(
                    ch as nat,
                    cl as nat,
                    dh as nat,
                    dl as nat,
                    al,
                    bh,
                    ah == 0x06,
                ),
            )
        } else if ah == 0x08 {
            let (s, v) = self.read8(cell(row, col));
            let (t, a) = s.read8((cell(row, col) + 1) as u32);
            Some(t.with_ax((0x100 * a + v) as u32))
        } else if ah == 0x09 || ah == 0x0A {
            let n = c.regs[CX as int] % 0x1_0000;
            Some(
                self.cells_filled(
                    (row * 80 + col) as nat,
                    if n == 0 { 1 } else { n as nat },
                    al,
                    if ah == 0x09 { Some(bh) } else { None },
                ),
            )
        } else if ah == 0x0F {
            Some(
                self.with_cpu(
                    c.with_reg(AX, 0x5003).with_reg(BX, (c.regs[BX as int] % 0x100) as u32),
                ),
            )
        } else if ah == 0x13 {
            Some(
                self.string_put(
                    linear(c.sregs[ES as int], (c.regs[BP as int] % 0x1_0000) as u16),
                    0,
                    (c.regs[CX as int] % 0x1_0000) as nat,
                    al / 2 % 2 == 1,
                    bh,
                    dh as nat,
                    dl as nat,
                ),
            )
        } else {
            None
        }
    }

    // ---- the clock ----

    /// The ticks since power on.
    #[verifier::opaque]
    pub open spec fn read_ticks(self) -> (State, u32) {
        let (s, lo) = self.read16(0x46C);
        let (t, hi) = s.read16(0x46E);
        (t, (lo + 0x1_0000 * hi) as u32)
    }

    #[verifier::opaque]
    pub open spec fn write_ticks(self, v: u32) -> State {
        self.write16(0x46C, (v % 0x1_0000) as u16).write16(0x46E, (v / 0x1_0000) as u16)
    }

    pub open spec fn with_cmos(self, cmos: Cmos) -> State {
        self.with_board(
            BoardState {
                devices: crate::bus::Devices { cmos, ..self.board.devices },
                ..self.board
            },
        )
    }

    /// The services of the clock: the ticks, and time and date of the clock chip.
    #[verifier::opaque]
    pub open spec fn clock_served(self) -> Option<State> {
        let c = self.cpu;
        let k = self.board.devices.cmos;
        let ah = (c.regs[AX as int] / 0x100 % 0x100) as u8;
        let ch = (c.regs[CX as int] / 0x100 % 0x100) as u8;
        let cl = (c.regs[CX as int] % 0x100) as u8;
        let dh = (c.regs[DX as int] / 0x100 % 0x100) as u8;
        let dl = (c.regs[DX as int] % 0x100) as u8;
        if ah == 0x00 {
            let (s, t) = self.read_ticks();
            Some(
                s.with_cpu(
                    s.cpu.with_reg(CX, (t / 0x1_0000) as u32).with_reg(
                        DX,
                        (t % 0x1_0000) as u32,
                    ).with_reg(AX, (0x100 * ah) as u32),
                ),
            )
        } else if ah == 0x01 {
            Some(
                self.write_ticks(
                    (c.regs[DX as int] % 0x1_0000 + 0x1_0000 * (c.regs[CX as int]
                        % 0x1_0000)) as u32,
                ),
            )
        } else if ah == 0x02 {
            Some(
                self.with_cpu(
                    c.with_reg(CX, (0x100 * k.hour + k.minute) as u32).with_reg(
                        DX,
                        (0x100 * k.second) as u32,
                    ).with_flag(CF, false),
                ),
            )
        } else if ah == 0x03 {
            Some(self.with_cmos(Cmos { hour: ch, minute: cl, second: dh, ..k }))
        } else if ah == 0x04 {
            Some(
                self.with_cpu(
                    c.with_reg(CX, (0x100 * k.century + k.year) as u32).with_reg(
                        DX,
                        (0x100 * k.month + k.day) as u32,
                    ).with_flag(CF, false),
                ),
            )
        } else if ah == 0x05 {
            Some(self.with_cmos(Cmos { century: ch, year: cl, month: dh, day: dl, ..k }))
        } else {
            None
        }
    }

    /// The services of the keyboard, and whether the call is done: one that waits for
    /// a key that is not there is made again, with interrupts on.
    #[verifier::opaque]
    pub open spec fn keys_served(self) -> Option<(State, bool)> {
        let ah = (self.cpu.regs[AX as int] / 0x100 % 0x100) as u8;
        if ah == 0x00 || ah == 0x10 {
            let (s, k) = self.take_key();
            match k {
                Some(v) => Some((s.with_ax(v as u32), true)),
                None => Some((s.with_cpu(s.cpu.with_flag(IF, true)), false)),
            }
        } else if ah == 0x01 || ah == 0x11 {
            let (s, k) = self.peek_key();
            match k {
                Some(v) => {
                    let t = s.with_ax(v as u32);
                    Some((t.with_cpu(t.cpu.with_flag(ZF, false)), true))
                },
                None => Some((s.with_cpu(s.cpu.with_flag(ZF, true)), true)),
            }
        } else if ah == 0x02 || ah == 0x12 {
            let (s, f) = self.read8(BDA_KB_FLAG1);
            Some((s.with_ax((0x100 * ah + f) as u32), true))
        } else if ah == 0x03 || ah == 0x05 {
            Some((self, true))
        } else {
            None
        }
    }

    // ---- the disk ----

    pub open spec fn disk_ok(self, sectors: u8) -> State {
        self.with_cpu(self.cpu.with_reg(AX, sectors as u32).with_flag(CF, false))
    }

    pub open spec fn disk_error(self, code: u8) -> State {
        self.with_cpu(self.cpu.with_reg(AX, (0x100 * code) as u32).with_flag(CF, true))
    }

    /// Bytes `k` and on of a sequence written from an address on.
    #[verifier::opaque]
    pub open spec fn bytes_written(self, addr: u32, bytes: Seq<u8>, k: nat) -> State
        decreases bytes.len() - k,
    {
        if k >= bytes.len() {
            self
        } else {
            self.write8(addr.wrapping_add(k as u32), bytes[k as int]).bytes_written(
                addr,
                bytes,
                k + 1,
            )
        }
    }

    /// `n` bytes read from an address on, after those of `got`.
    #[verifier::opaque]
    pub open spec fn bytes_read(self, addr: u32, n: nat, got: Seq<u8>) -> (State, Seq<u8>)
        decreases n - got.len(),
    {
        if got.len() >= n {
            (self, got)
        } else {
            let (s, v) = self.read8(addr.wrapping_add(got.len() as u32));
            s.bytes_read(addr, n, got.push(v))
        }
    }

    /// Sectors from the disk to memory.
    #[verifier::opaque]
    pub open spec fn sectors_read(self, d: DiskState, lba: int, count: u8, addr: u32) -> State {
        if count > 0 && 512 * (lba + count) > d.image.len() {
            self.disk_error(4)
        } else {
            let b = if count == 0 {
                Seq::empty()
            } else {
                d.image.subrange(512 * lba, 512 * (lba + count))
            };
            self.bytes_written(addr, b, 0).disk_ok(count)
        }
    }

    /// Sectors from memory to the disk: those that the disk has are written, and it
    /// is an error if they are not all.
    #[verifier::opaque]
    pub open spec fn sectors_written(self, d: DiskState, lba: int, count: u8, addr: u32) -> State {
        let (s, b) = self.bytes_read(addr, (512 * count) as nat, Seq::empty());
        let end = d.image.len() / 512 * 512;
        let img = Seq::new(
            d.image.len(),
            |i: int|
                if 512 * lba <= i < 512 * (lba + count) && i < end {
                    b[i - 512 * lba]
                } else {
                    d.image[i]
                },
        );
        let t = s.with_board(
            BoardState { disk: Some(DiskState { image: img, ..d }), ..s.board },
        );
        if count > 0 && 512 * (lba + count) > d.image.len() {
            t.disk_error(4)
        } else {
            t.disk_ok(count)
        }
    }

    /// The disk services. Without a disk every call runs out of time. There is no
    /// service for the shape of a disk that has no cylinders or no heads.
    #[verifier::opaque]
    pub open spec fn disk_served(self) -> Option<State> {
        let c = self.cpu;
        let ax = c.regs[AX as int];
        let cx = (c.regs[CX as int] % 0x1_0000) as u16;
        let dx = (c.regs[DX as int] % 0x1_0000) as u16;
        let ah = (ax / 0x100 % 0x100) as u8;
        match self.board.disk {
            None => Some(self.disk_error(0x80)),
            Some(d) => if ah == 0x00 || 0x16 <= ah <= 0x18 {
                Some(self.disk_ok(0))
            } else if ah == 0x02 || ah == 0x03 {
                let cyl = (cx / 0x100 + cx / 0x40 % 4 * 0x100) as u16;
                let addr = linear(c.sregs[ES as int], (c.regs[BX as int] % 0x1_0000) as u16);
                let count = (ax % 0x100) as u8;
                match d.lba_of(cyl, (dx / 0x100) as u8, (cx % 0x40) as u8) {
                    None => Some(self.disk_error(4)),
                    Some(lba) => Some(
                        if ah == 0x02 {
                            self.sectors_read(d, lba, count, addr)
                        } else {
                            self.sectors_written(d, lba, count, addr)
                        },
                    ),
                }
            } else if ah == 0x08 {
                if d.cylinders == 0 || d.heads == 0 {
                    None
                } else {
                    let last = (d.cylinders - 1) as u16;
                    Some(
                        self.with_cpu(
                            c.with_reg(
                                CX,
                                (((last % 0x100) * 0x100) as u16 | (last / 4) & 0xC0u16
                                    | d.sectors as u16) as u32,
                            ).with_reg(DX, ((d.heads - 1) * 0x100 + 1) as u32).with_reg(
                                BX,
                                (c.regs[BX as int] / 0x100 % 0x100 * 0x100 + 4) as u32,
                            ),
                        ).disk_ok(0),
                    )
                }
            } else if ah == 0x15 {
                Some(
                    self.with_cpu(
                        c.with_reg(AX, (ax % 0x100 + 0x100) as u32).with_flag(CF, false),
                    ),
                )
            } else if ah == 0x41 {
                Some(self.disk_error(1))
            } else {
                None
            },
        }
    }

    // ---- all services ----

    /// The end of an interrupt told to the first controller.
    pub open spec fn irq_ended(self) -> State {
        self.io_write(0x20, 1, 0x20)
    }

    /// The timer counted.
    #[verifier::opaque]
    pub open spec fn tick_counted(self) -> State {
        let (s, t) = self.read_ticks();
        s.write_ticks(t.wrapping_add(1)).irq_ended()
    }

    /// A service of the firmware, and whether it is done. There is no next state for
    /// a service that the firmware does not have.
    #[verifier::opaque]
    pub open spec fn bios_served(self, n: u8) -> Option<(State, bool)> {
        let ax = self.cpu.regs[AX as int];
        if n == 0x10 {
            match self.video_served() {
                None => None,
                Some(s) => Some((s, true)),
            }
        } else if n == 0x08 {
            Some((self.tick_counted(), true))
        } else if n == 0x09 {
            Some((self.keyboard_served().irq_ended(), true))
        } else if 0x0A <= n <= 0x0F {
            Some((self.irq_ended(), true))
        } else if 0x70 <= n <= 0x77 {
            Some((self.io_write(0xA0, 1, 0x20).irq_ended(), true))
        } else if n == 0x1C {
            Some((self, true))
        } else if n == 0x11 {
            Some((self.with_ax(0x21), true))
        } else if n == 0x12 {
            Some((self.with_ax(640), true))
        } else if n == 0x13 {
            match self.disk_served() {
                None => None,
                Some(s) => Some((s, true)),
            }
        } else if n == 0x15 {
            Some(
                (
                    self.with_cpu(
                        self.cpu.with_flag(CF, true).with_reg(AX, (ax % 0x100 + 0x8600) as u32),
                    ),
                    true,
                ),
            )
        } else if n == 0x16 {
            self.keys_served()
        } else if n == 0x1A {
            match self.clock_served() {
                None => None,
                Some(s) => Some((s, true)),
            }
        } else {
            None
        }
    }
}

impl Machine {
    fn install_bios_rom_id(&mut self)
        ensures
            final(self)@ == old(self)@.rom_id_installed(),
    {
        proof {
            reveal(State::rom_id_installed);
        }
        self.write8(0xF_FFF5, 0x30);
        self.write8(0xF_FFF6, 0x38);
        self.write8(0xF_FFF7, 0x2F);
        self.write8(0xF_FFF8, 0x30);
        self.write8(0xF_FFF9, 0x38);
        self.write8(0xF_FFFA, 0x2F);
        self.write8(0xF_FFFB, 0x32);
        self.write8(0xF_FFFC, 0x36);
        self.write8(0xF_FFFE, 0xFE);
        self.write8(0xF_FFFF, 0x00);
    }

    fn install_bios_vectors(&mut self)
        ensures
            final(self)@ == old(self)@.vectors_from(0),
    {
        let mut n: u32 = 0;
        while n < 256
            invariant
                n <= 256,
                self@.vectors_from(n as nat) == old(self)@.vectors_from(0),
            decreases 256 - n,
        {
            proof {
                reveal_with_fuel(State::vectors_from, 2);
            }
            self.write16(4 * n, n as u16);
            self.write16(4 * n + 2, BIOS_SEG);
            n = n + 1;
        }
        proof {
            reveal_with_fuel(State::vectors_from, 2);
        }
    }

    fn install_cursors(&mut self)
        ensures
            final(self)@ == old(self)@.cursors_from(0),
    {
        let mut p: u32 = 0;
        while p < 8
            invariant
                p <= 8,
                self@.cursors_from(p as nat) == old(self)@.cursors_from(0),
            decreases 8 - p,
        {
            proof {
                reveal_with_fuel(State::cursors_from, 2);
            }
            self.write16(0x450 + 2 * p, 0);
            p = p + 1;
        }
        proof {
            reveal_with_fuel(State::cursors_from, 2);
        }
    }

    fn install_bios_data_area(&mut self)
        ensures
            final(self)@ == old(self)@.data_area_installed(),
    {
        proof {
            reveal(State::data_area_installed);
        }
        self.write16(0x400, 0x3F8);
        self.write16(0x408, 0x378);
        self.write16(0x410, 0x0221);
        self.write16(0x413, 640);
        self.write8(0x449, 3);
        self.write16(0x44A, 80);
        self.write16(0x44C, 0x1000);
        self.write16(0x44E, 0);
        self.install_cursors();
        self.write16(0x460, 0x0607);
        self.write8(0x462, 0);
        self.write16(0x463, 0x3D4);
        self.write16(BDA_KB_HEAD, KB_BUF_START);
        self.write16(BDA_KB_TAIL, KB_BUF_START);
        self.write16(0x480, KB_BUF_START);
        self.write16(0x482, KB_BUF_END);
        self.write8(0x475, 0);
        self.write8(0x484, 24);
    }

    fn start_pic(&mut self, port: u16, base: u8, wiring: u8, mask: u8)
        requires
            port < 0xFFFF,
        ensures
            final(self)@ == old(self)@.pic_started(port, base, wiring, mask),
    {
        proof {
            reveal(State::pic_started);
        }
        self.io_write8(port, 0x11);
        self.io_write8(port + 1, base);
        self.io_write8(port + 1, wiring);
        self.io_write8(port + 1, 0x01);
        self.io_write8(port + 1, mask);
    }

    fn install_pic_defaults(&mut self)
        ensures
            final(self)@ == old(self)@.pic_started(0x20, 0x08, 0x04, 0xF8).pic_started(
                0xA0,
                0x70,
                0x02,
                0xFF,
            ),
    {
        self.start_pic(0x20, 0x08, 0x04, 0xF8);
        self.start_pic(0xA0, 0x70, 0x02, 0xFF);
    }

    fn install_pit_defaults(&mut self)
        ensures
            final(self)@ == old(self)@.pit_started(),
    {
        proof {
            reveal(State::pit_started);
        }
        self.io_write8(0x43, 0x36);
        self.io_write8(0x40, 0);
        self.io_write8(0x40, 0);
        self.io_write8(0x43, 0x54);
        self.io_write8(0x41, 18);
    }

    /// What the firmware does before it hands over: the model in the ROM, the
    /// interrupt vectors, the data area, the interrupt controllers and the timer.
    pub fn power_on_self_test(&mut self)
        ensures
            final(self)@ == old(self)@.self_tested(),
    {
        proof {
            reveal(State::self_tested);
        }
        self.install_bios_rom_id();
        self.install_bios_vectors();
        self.install_bios_data_area();
        self.install_pic_defaults();
        self.install_pit_defaults();
    }

    // ---- the keyboard ----

    /// Puts a key into the queue.
    pub fn kbd_enqueue(&mut self, entry: u16)
        ensures
            final(self)@ == old(self)@.key_queued(entry),
    {
        proof {
            reveal(State::key_queued);
        }
        let tail: u16 = self.read16(BDA_KB_TAIL);
        let head: u16 = self.read16(BDA_KB_HEAD);
        if next_key(tail) != head {
            self.write16(BDA_SEG + tail as u32, entry);
            self.write16(BDA_KB_TAIL, next_key(tail));
        }
    }

    /// The next key of the queue.
    pub fn peek_key(&mut self) -> (r: Option<u16>)
        ensures
            (final(self)@, r) == old(self)@.peek_key(),
    {
        proof {
            reveal(State::peek_key);
        }
        let head: u16 = self.read16(BDA_KB_HEAD);
        let tail: u16 = self.read16(BDA_KB_TAIL);
        if head == tail {
            None
        } else {
            Some(self.read16(BDA_SEG + head as u32))
        }
    }

    /// Takes the next key out of the queue.
    pub fn take_key(&mut self) -> (r: Option<u16>)
        ensures
            (final(self)@, r) == old(self)@.take_key(),
    {
        proof {
            reveal(State::take_key);
        }
        let head: u16 = self.read16(BDA_KB_HEAD);
        let tail: u16 = self.read16(BDA_KB_TAIL);
        if head == tail {
            None
        } else {
            let v: u16 = self.read16(BDA_SEG + head as u32);
            self.write16(BDA_KB_HEAD, next_key(head));
            Some(v)
        }
    }

    #[verifier::rlimit(40)]
    fn keyboard_isr(&mut self)
        ensures
            final(self)@ == old(self)@.keyboard_served(),
    {
        proof {
            reveal(State::keyboard_served);
        }
        let status: u8 = if self.port_latch.len() > 0x64 {
            self.port_latch[0x64]
        } else {
            0xFF
        };
        if status % 2 == 0 {
            return;
        }
        let sc: u8 = self.io_read8(0x60);
        if sc == 0xFF || sc == 0xE0 {
            return;
        }
        let released = sc >= 0x80;
        let code: u8 = sc % 0x80;
        if modifier_bit(code) != 0 {
            let f: u8 = self.read8(BDA_KB_FLAG1);
            let g: u8 = if released {
                f & !modifier_bit(code)
            } else {
                f | modifier_bit(code)
            };
            self.write8(BDA_KB_FLAG1, g);
            return;
        }
        if released {
            return;
        }
        let f: u8 = self.read8(BDA_KB_FLAG1);
        let a: u8 = match scancode_to_ascii(code, f & 3 != 0, f & 4 != 0) {
            Some(a) => a,
            None => 0,
        };
        self.kbd_enqueue(0x100 * code as u16 + a as u16);
    }

    // ---- the screen ----

    /// Row and column of the cursor.
    pub fn cursor_pos(&self) -> (r: (u32, u32))
        ensures
            r == self@.cursor_pos(),
            r.0 <= 819,
            r.1 < 80,
    {
        ((self.board.devices.cursor / 80) as u32, (self.board.devices.cursor % 80) as u32)
    }

    /// Puts the cursor to a row and column.
    pub fn set_cursor_pos(&mut self, row: u32, col: u32)
        requires
            row <= 0x1_0000,
            col <= 0x1_0000,
        ensures
            final(self)@ == old(self)@.with_cursor(row, col),
    {
        self.board.devices.cursor = ((row * 80 + col) % 0x1_0000) as u16;
    }

    fn write_cell(&mut self, row: u32, col: u32, ch: u8, attr: u8)
        requires
            row <= 0x1_0000,
            col <= 0x1_0000,
        ensures
            final(self)@ == old(self)@.cell_written(row, col, ch, attr),
    {
        proof {
            reveal(State::cell_written);
        }
        self.write8(cell(row, col), ch);
        self.write8(cell(row, col) + 1, attr);
    }

    fn copy_cells(&mut self, from: u32, to: u32, left: u32, right: u32)
        requires
            from < 25,
            to < 25,
            right < 80,
        ensures
            final(self)@ == old(self)@.cells_copied(from, to, left as nat, right as nat),
    {
        let mut c: u32 = left;
        while c <= right
            invariant
                from < 25,
                to < 25,
                right < 80,
                self@.cells_copied(from, to, c as nat, right as nat) == old(self)@.cells_copied(
                    from,
                    to,
                    left as nat,
                    right as nat,
                ),
            decreases right + 1 - c,
        {
            proof {
                reveal_with_fuel(State::cells_copied, 2);
            }
            let v: u8 = self.read8(cell(from, c));
            let a: u8 = self.read8(cell(from, c) + 1);
            self.write_cell(to, c, v, a);
            c = c + 1;
        }
        proof {
            reveal_with_fuel(State::cells_copied, 2);
        }
    }

    fn blank_cells(&mut self, row: u32, left: u32, right: u32, attr: u8)
        requires
            row < 25,
            right < 80,
        ensures
            final(self)@ == old(self)@.cells_blanked(row, left as nat, right as nat, attr),
    {
        let mut c: u32 = left;
        while c <= right
            invariant
                row < 25,
                right < 80,
                self@.cells_blanked(row, c as nat, right as nat, attr) == old(self)@.cells_blanked(
                    row,
                    left as nat,
                    right as nat,
                    attr,
                ),
            decreases right + 1 - c,
        {
            proof {
                reveal_with_fuel(State::cells_blanked, 2);
            }
            self.write_cell(row, c, 0x20, attr);
            c = c + 1;
        }
        proof {
            reveal_with_fuel(State::cells_blanked, 2);
        }
    }

    fn blank_rows(&mut self, top: u32, bottom: u32, left: u32, right: u32, attr: u8)
        requires
            bottom < 25,
            right < 80,
        ensures
            final(self)@ == old(self)@.rows_blanked(
                top as nat,
                bottom as nat,
                left as nat,
                right as nat,
                attr,
            ),
    {
        let mut r: u32 = top;
        while r <= bottom
            invariant
                bottom < 25,
                right < 80,
                self@.rows_blanked(r as nat, bottom as nat, left as nat, right as nat, attr)
                    == old(self)@.rows_blanked(
                    top as nat,
                    bottom as nat,
                    left as nat,
                    right as nat,
                    attr,
                ),
            decreases bottom + 1 - r,
        {
            proof {
                reveal_with_fuel(State::rows_blanked, 2);
            }
            self.blank_cells(r, left, right, attr);
            r = r + 1;
        }
        proof {
            reveal_with_fuel(State::rows_blanked, 2);
        }
    }

    fn move_rows_up(&mut self, top: u32, bottom: u32, left: u32, right: u32)
        requires
            bottom < 25,
            right < 80,
        ensures
            final(self)@ == old(self)@.rows_up(
                top as nat,
                bottom as nat,
                left as nat,
                right as nat,
            ),
    {
        let mut r: u32 = top;
        while r < bottom
            invariant
                bottom < 25,
                right < 80,
                self@.rows_up(r as nat, bottom as nat, left as nat, right as nat)
                    == old(self)@.rows_up(top as nat, bottom as nat, left as nat, right as nat),
            decreases bottom - r,
        {
            proof {
                reveal_with_fuel(State::rows_up, 2);
            }
            self.copy_cells(r + 1, r, left, right);
            r = r + 1;
        }
        proof {
            reveal_with_fuel(State::rows_up, 2);
        }
    }

    fn move_rows_down(&mut self, top: u32, bottom: u32, left: u32, right: u32)
        requires
            bottom < 25,
            right < 80,
        ensures
            final(self)@ == old(self)@.rows_down(
                bottom as nat,
                top as nat,
                left as nat,
                right as nat,
            ),
    {
        let mut r: u32 = bottom;
        while r > top
            invariant
                r <= bottom < 25,
                right < 80,
                self@.rows_down(r as nat, top as nat, left as nat, right as nat)
                    == old(self)@.rows_down(
                    bottom as nat,
                    top as nat,
                    left as nat,
                    right as nat,
                ),
            decreases r,
        {
            proof {
                reveal_with_fuel(State::rows_down, 2);
            }
            self.copy_cells(r - 1, r, left, right);
            r = r - 1;
        }
        proof {
            reveal_with_fuel(State::rows_down, 2);
        }
    }

    fn move_once(&mut self, top: u32, left: u32, bottom: u32, right: u32, attr: u8, up: bool)
        requires
            top <= bottom < 25,
            right < 80,
        ensures
            final(self)@ == old(self)@.moved_once(
                top as nat,
                left as nat,
                bottom as nat,
                right as nat,
                attr,
                up,
            ),
    {
        proof {
            reveal(State::moved_once);
        }
        if up {
            self.move_rows_up(top, bottom, left, right);
            self.blank_cells(bottom, left, right, attr);
        } else {
            self.move_rows_down(top, bottom, left, right);
            self.blank_cells(top, left, right, attr);
        }
    }

    /// Moves a window of the text screen up or down and blanks what comes in; by no
    /// rows it clears the window.
    pub fn scroll_window(
        &mut self,
        top: u32,
        left: u32,
        bottom0: u32,
        right0: u32,
        lines: u8,
        attr: u8,
        up: bool,
    )
        ensures
            final(self)@ == old(self)@.scrolled(
                top as nat,
                left as nat,
                bottom0 as nat,
                right0 as nat,
                lines,
                attr,
                up,
            ),
    {
        proof {
            reveal(State::scrolled);
        }
        let bottom: u32 = if bottom0 > 24 {
            24
        } else {
            bottom0
        };
        let right: u32 = if right0 > 79 {
            79
        } else {
            right0
        };
        if top > bottom || left > right {
            return;
        }
        if lines == 0 {
            let blank: u32 = if up {
                bottom
            } else {
                top
            };
            self.blank_cells(blank, left, right, attr);
            self.blank_rows(top, bottom, left, right, attr);
            return;
        }
        let rows: u32 = bottom - top + 1;
        let n: u32 = if lines as u32 > rows {
            rows
        } else {
            lines as u32
        };
        let mut k: u32 = n;
        while k > 0
            invariant
                top <= bottom < 25,
                right < 80,
                self@.moved(
                    k as nat,
                    top as nat,
                    left as nat,
                    bottom as nat,
                    right as nat,
                    attr,
                    up,
                ) == old(self)@.moved(
                    n as nat,
                    top as nat,
                    left as nat,
                    bottom as nat,
                    right as nat,
                    attr,
                    up,
                ),
            decreases k,
        {
            proof {
                reveal_with_fuel(State::moved, 2);
            }
            self.move_once(top, left, bottom, right, attr, up);
            k = k - 1;
        }
        proof {
            reveal_with_fuel(State::moved, 2);
        }
    }

    fn put_char(&mut self, row: u32, col: u32, c: u8)
        requires
            row <= 0x1_0000,
            col <= 0x1_0000,
        ensures
            final(self)@ == old(self)@.char_put(row, col, c),
    {
        proof {
            reveal(State::char_put);
        }
        let a: u32 = cell(row, col);
        self.write8(a, c);
        if self.read8(a + 1) == 0 {
            self.write8(a + 1, 7);
        }
    }

    fn note_console(&mut self, c: u8)
        ensures
            final(self)@ == old(self)@.console_noted(c),
    {
        proof {
            reveal(State::console_noted);
        }
        self.board.console.push(c);
    }

    fn settle_cursor(&mut self, row: u32, col: u32)
        requires
            row <= 0x1000,
            col <= 0x1000,
        ensures
            final(self)@ == old(self)@.cursor_settled(row, col),
    {
        proof {
            reveal(State::cursor_settled);
        }
        let row1: u32 = if col >= 80 {
            row + 1
        } else {
            row
        };
        let col1: u32 = if col >= 80 {
            0
        } else {
            col
        };
        if row1 >= 25 {
            self.scroll_window(0, 0, 24, 79, 1, 7, true);
            self.set_cursor_pos(24, col1);
        } else {
            self.set_cursor_pos(row1, col1);
        }
    }

    /// Writes a character as a teletype does.
    pub fn teletype(&mut self, c: u8)
        ensures
            final(self)@ == old(self)@.typed(c),
    {
        proof {
            reveal(State::typed);
        }
        self.note_console(c);
        let (row, col): (u32, u32) = self.cursor_pos();
        if c == 13 {
            self.settle_cursor(row, 0);
        } else if c == 10 {
            self.settle_cursor(row + 1, col);
        } else if c == 8 {
            self.settle_cursor(
                row,
                if col == 0 {
                    0
                } else {
                    col - 1
                },
            );
        } else if c == 7 {
            self.settle_cursor(row, col);
        } else if c == 9 {
            self.settle_cursor(row, (col / 8 + 1) * 8);
        } else {
            self.put_char(row, col, c);
            self.settle_cursor(row, col + 1);
        }
    }

    fn fill_cells(&mut self, start: u32, count: u32, ch: u8, attr: Option<u8>)
        requires
            start <= 0x1_0000,
            count <= 0x1_0000,
        ensures
            final(self)@ == old(self)@.cells_filled(start as nat, count as nat, ch, attr),
    {
        let mut idx: u32 = start;
        let mut n: u32 = count;
        while n > 0 && idx < 2000
            invariant
                idx <= 0x1_0000,
                self@.cells_filled(idx as nat, n as nat, ch, attr) == old(self)@.cells_filled(
                    start as nat,
                    count as nat,
                    ch,
                    attr,
                ),
            decreases n,
        {
            proof {
                reveal_with_fuel(State::cells_filled, 2);
            }
            let a: u32 = 0xB_8000 + 2 * idx;
            self.write8(a, ch);
            if let Some(x) = attr {
                self.write8(a + 1, x);
            }
            idx = idx + 1;
            n = n - 1;
        }
        proof {
            reveal_with_fuel(State::cells_filled, 2);
        }
    }

    fn put_string(&mut self, src: u32, count: u32, both: bool, attr: u8, row0: u32, col0: u32)
        requires
            src <= 0x10_0000,
            count <= 0xFFFF,
            row0 <= 0xFF,
            col0 <= 0xFF,
        ensures
            final(self)@ == old(self)@.string_put(
                src,
                0,
                count as nat,
                both,
                attr,
                row0 as nat,
                col0 as nat,
            ),
    {
        let mut i: u32 = 0;
        let mut row: u32 = row0;
        let mut col: u32 = col0;
        while i < count
            invariant
                i <= count <= 0xFFFF,
                src <= 0x10_0000,
                row <= 0xFF + i,
                col <= 0xFF + i,
                self@.string_put(
                    src,
                    i as nat,
                    count as nat,
                    both,
                    attr,
                    row as nat,
                    col as nat,
                ) == old(self)@.string_put(
                    src,
                    0,
                    count as nat,
                    both,
                    attr,
                    row0 as nat,
                    col0 as nat,
                ),
            decreases count - i,
        {
            proof {
                reveal_with_fuel(State::string_put, 2);
            }
            let at: u32 = src + (if both {
                2 * i
            } else {
                i
            });
            let ch: u8 = self.read8(at);
            let a: u8 = if both {
                self.read8(at + 1)
            } else {
                attr
            };
            if ch == 10 {
                row = row + 1;
                col = 0;
            } else if ch == 13 {
                col = 0;
            } else {
                if row < 25 && col < 80 {
                    self.write_cell(row, col, ch, a);
                }
                col = col + 1;
            }
            i = i + 1;
        }
        proof {
            reveal_with_fuel(State::string_put, 2);
        }
    }

    fn bios_video(&mut self)
        requires
            old(self)@.video_served() is Some,
        ensures
            Some(final(self)@) == old(self)@.video_served(),
    {
        proof {
            reveal(State::video_served);
        }
        let ah: u8 = (self.cpu.regs[AX] / 0x100 % 0x100) as u8;
        let al: u8 = (self.cpu.regs[AX] % 0x100) as u8;
        let bh: u8 = (self.cpu.regs[BX] / 0x100 % 0x100) as u8;
        let ch: u8 = (self.cpu.regs[CX] / 0x100 % 0x100) as u8;
        let cl: u8 = (self.cpu.regs[CX] % 0x100) as u8;
        let dh: u8 = (self.cpu.regs[DX] / 0x100 % 0x100) as u8;
        let dl: u8 = (self.cpu.regs[DX] % 0x100) as u8;
        let (row, col) = self.cursor_pos();
        if ah == 0x00 {
            self.board.video_modes[(al % 0x80) as usize] = true;
        } else if ah == 0x01 || ah == 0x05 || ah == 0x10 || ah == 0x12 {
        } else if ah == 0x02 {
            self.set_cursor_pos(dh as u32, dl as u32);
        } else if ah == 0x03 {
            self.cpu.set_reg32(DX, 0x100 * row + col);
            self.cpu.set_reg32(CX, 0x0607);
        } else if ah == 0x0E {
            self.teletype(al);
        } else if ah == 0xEF {
            self.cpu.set_reg32(DX, 0xFFFF);
        } else if ah == 0x1A || ah == 0x1B {
            self.cpu.set_reg32(AX, 0x100 * ah as u32);
            self.cpu.set_reg32(BX, 2);
        } else if ah == 0x11 {
            if al == 0x30 {
                self.cpu.set_reg32(CX, 16);
                self.cpu.set_reg32(DX, 0x100 * dh as u32 + 24);
                self.cpu.set_reg32(BP, 0);
                self.cpu.sregs[ES] = 0;
            }
        } else if ah == 0x06 || ah == 0x07 {
            self.scroll_window(
                ch as u32,
                cl as u32,
                dh as u32,
                dl as u32,
                al,
                bh,
                ah == 0x06,
            );
        } else if ah == 0x08 {
            let v: u8 = self.read8(cell(row, col));
            let a: u8 = self.read8(cell(row, col) + 1);
            self.cpu.set_reg32(AX, 0x100 * a as u32 + v as u32);
        } else if ah == 0x09 || ah == 0x0A {
            let n: u32 = self.cpu.regs[CX] % 0x1_0000;
            let count: u32 = if n == 0 {
                1
            } else {
                n
            };
            let attr: Option<u8> = if ah == 0x09 {
                Some(bh)
            } else {
                None
            };
            self.fill_cells(row * 80 + col, count, al, attr);
        } else if ah == 0x0F {
            let bx: u32 = self.cpu.regs[BX] % 0x100;
            self.cpu.set_reg32(AX, 0x5003);
            self.cpu.set_reg32(BX, bx);
        } else {
            let src: u32 = linear(self.cpu.sregs[ES], (self.cpu.regs[BP] % 0x1_0000) as u16);
            let count: u32 = self.cpu.regs[CX] % 0x1_0000;
            self.put_string(src, count, al / 2 % 2 == 1, bh, dh as u32, dl as u32);
        }
    }

    // ---- the clock ----

    fn read_ticks(&mut self) -> (r: u32)
        ensures
            (final(self)@, r) == old(self)@.read_ticks(),
    {
        proof {
            reveal(State::read_ticks);
        }
        let lo: u16 = self.read16(0x46C);
        let hi: u16 = self.read16(0x46E);
        lo as u32 + 0x1_0000 * hi as u32
    }

    fn write_ticks(&mut self, v: u32)
        ensures
            final(self)@ == old(self)@.write_ticks(v),
    {
        proof {
            reveal(State::write_ticks);
        }
        self.write16(0x46C, (v % 0x1_0000) as u16);
        self.write16(0x46E, (v / 0x1_0000) as u16);
    }

    fn bios_clock(&mut self)
        requires
            old(self)@.clock_served() is Some,
        ensures
            Some(final(self)@) == old(self)@.clock_served(),
    {
        proof {
            reveal(State::clock_served);
        }
        let k: Cmos = self.board.devices.cmos;
        let ah: u8 = (self.cpu.regs[AX] / 0x100 % 0x100) as u8;
        let ch: u8 = (self.cpu.regs[CX] / 0x100 % 0x100) as u8;
        let cl: u8 = (self.cpu.regs[CX] % 0x100) as u8;
        let dh: u8 = (self.cpu.regs[DX] / 0x100 % 0x100) as u8;
        let dl: u8 = (self.cpu.regs[DX] % 0x100) as u8;
        if ah == 0x00 {
            let t: u32 = self.read_ticks();
            self.cpu.set_reg32(CX, t / 0x1_0000);
            self.cpu.set_reg32(DX, t % 0x1_0000);
            self.cpu.set_reg32(AX, 0x100 * ah as u32);
        } else if ah == 0x01 {
            let v: u32 = self.cpu.regs[DX] % 0x1_0000 + 0x1_0000 * (self.cpu.regs[CX] % 0x1_0000);
            self.write_ticks(v);
        } else if ah == 0x02 {
            self.cpu.set_reg32(CX, 0x100 * k.hour as u32 + k.minute as u32);
            self.cpu.set_reg32(DX, 0x100 * k.second as u32);
            self.cpu.set_flag(CF, false);
        } else if ah == 0x03 {
            self.board.devices.cmos = Cmos { hour: ch, minute: cl, second: dh, ..k };
        } else if ah == 0x04 {
            self.cpu.set_reg32(CX, 0x100 * k.century as u32 + k.year as u32);
            self.cpu.set_reg32(DX, 0x100 * k.month as u32 + k.day as u32);
            self.cpu.set_flag(CF, false);
        } else {
            self.board.devices.cmos = Cmos { century: ch, year: cl, month: dh, day: dl, ..k };
        }
    }

    fn bios_keys(&mut self) -> (done: bool)
        requires
            old(self)@.keys_served() is Some,
        ensures
            Some((final(self)@, done)) == old(self)@.keys_served(),
    {
        proof {
            reveal(State::keys_served);
        }
        let ah: u8 = (self.cpu.regs[AX] / 0x100 % 0x100) as u8;
        if ah == 0x00 || ah == 0x10 {
            match self.take_key() {
                Some(v) => {
                    self.cpu.set_reg32(AX, v as u32);
                    true
                },
                None => {
                    self.cpu.set_flag(IF, true);
                    false
                },
            }
        } else if ah == 0x01 || ah == 0x11 {
            match self.peek_key() {
                Some(v) => {
                    self.cpu.set_reg32(AX, v as u32);
                    self.cpu.set_flag(ZF, false);
                },
                None => self.cpu.set_flag(ZF, true),
            }
            true
        } else if ah == 0x02 || ah == 0x12 {
            let f: u8 = self.read8(BDA_KB_FLAG1);
            self.cpu.set_reg32(AX, 0x100 * ah as u32 + f as u32);
            true
        } else {
            true
        }
    }

    // ---- the disk ----

    fn disk_ok(&mut self, sectors: u8)
        ensures
            final(self)@ == old(self)@.disk_ok(sectors),
    {
        self.cpu.set_reg32(AX, sectors as u32);
        self.cpu.set_flag(CF, false);
    }

    fn disk_error(&mut self, code: u8)
        ensures
            final(self)@ == old(self)@.disk_error(code),
    {
        self.cpu.set_reg32(AX, 0x100 * code as u32);
        self.cpu.set_flag(CF, true);
    }

    fn write_bytes(&mut self, addr: u32, b: &Vec<u8>)
        ensures
            final(self)@ == old(self)@.bytes_written(addr, b@, 0),
    {
        let mut k: usize = 0;
        while k < b.len()
            invariant
                k <= b.len(),
                self@.bytes_written(addr, b@, k as nat) == old(self)@.bytes_written(addr, b@, 0),
            decreases b.len() - k,
        {
            proof {
                reveal_with_fuel(State::bytes_written, 2);
            }
            self.write8(addr.wrapping_add(k as u32), b[k]);
            k = k + 1;
        }
        proof {
            reveal_with_fuel(State::bytes_written, 2);
        }
    }

    fn read_bytes(&mut self, addr: u32, n: usize) -> (b: Vec<u8>)
        ensures
            (final(self)@, b@) == old(self)@.bytes_read(addr, n as nat, Seq::empty()),
            b.len() == n,
    {
        let mut b: Vec<u8> = Vec::new();
        while b.len() < n
            invariant
                b.len() <= n,
                self@.bytes_read(addr, n as nat, b@) == old(self)@.bytes_read(
                    addr,
                    n as nat,
                    Seq::empty(),
                ),
            decreases n - b.len(),
        {
            proof {
                reveal_with_fuel(State::bytes_read, 2);
            }
            let v: u8 = self.read8(addr.wrapping_add(b.len() as u32));
            b.push(v);
        }
        proof {
            reveal_with_fuel(State::bytes_read, 2);
        }
        b
    }

    fn read_sectors(&mut self, lba: usize, count: u8, addr: u32)
        requires
            old(self)@.board.disk is Some,
            lba < 0x1_0000_0000,
        ensures
            final(self)@ == old(self)@.sectors_read(
                old(self)@.board.disk->0,
                lba as int,
                count,
                addr,
            ),
    {
        proof {
            reveal(State::sectors_read);
        }
        let mut b: Vec<u8> = Vec::new();
        let mut short = false;
        if let Some(d) = &self.board.disk {
            let from: u64 = 512 * lba as u64;
            let to: u64 = 512 * (lba as u64 + count as u64);
            if count > 0 {
                if to > d.image.len() as u64 {
                    short = true;
                } else {
                    let mut i: usize = from as usize;
                    while i < to as usize
                        invariant
                            from <= i <= to <= d.image.len(),
                            b@ == d.image@.subrange(from as int, i as int),
                        decreases to - i,
                    {
                        b.push(d.image[i]);
                        i = i + 1;
                    }
                }
            }
        }
        if short {
            self.disk_error(4);
        } else {
            self.write_bytes(addr, &b);
            self.disk_ok(count);
        }
    }

    fn write_sectors(&mut self, lba: usize, count: u8, addr: u32)
        requires
            old(self)@.board.disk is Some,
            lba < 0x1_0000_0000,
        ensures
            final(self)@ == old(self)@.sectors_written(
                old(self)@.board.disk->0,
                lba as int,
                count,
                addr,
            ),
    {
        proof {
            reveal(State::sectors_written);
            lemma_bytes_read_keeps(self@, addr, (512 * count) as nat, Seq::empty());
        }
        let ghost d0 = self@.board.disk->0;
        let b: Vec<u8> = self.read_bytes(addr, 512 * count as usize);
        let mut all = true;
        let disk = self.board.disk.take();
        if let Some(mut d) = disk {
            let from: u64 = 512 * lba as u64;
            let to: u64 = 512 * (lba as u64 + count as u64);
            let end: u64 = d.image.len() as u64 / 512 * 512;
            if count > 0 && to > d.image.len() as u64 {
                all = false;
            }
            let mut i: u64 = from;
            while i < to && i < end
                invariant
                    from == 512 * lba,
                    to == 512 * (lba + count),
                    b.len() == to - from,
                    from <= i,
                    i <= to,
                    i <= end || i == from,
                    end <= d.image.len(),
                    end == d0.image.len() / 512 * 512,
                    d@ == (DiskState { image: d@.image, ..d0 }),
                    d@.image.len() == d0.image.len(),
                    forall|j: int|
                        0 <= j < d0.image.len() ==> #[trigger] d@.image[j] == (if from <= j < i && j
                            < end {
                            b@[j - from]
                        } else {
                            d0.image[j]
                        }),
                decreases to - i,
            {
                d.image[i as usize] = b[(i - from) as usize];
                i = i + 1;
            }
            assert(d@.image == Seq::new(
                d0.image.len(),
                |k: int|
                    if 512 * lba <= k < 512 * (lba + count) && k < end {
                        b@[k - 512 * lba]
                    } else {
                        d0.image[k]
                    },
            ));
            self.board.disk = Some(d);
        }
        if all {
            self.disk_ok(count);
        } else {
            self.disk_error(4);
        }
    }

    fn disk_shape(&mut self, cylinders: u16, heads: u8, sectors: u8)
        requires
            cylinders > 0,
            heads > 0,
        ensures
            final(self)@ == old(self)@.with_cpu(
                old(self)@.cpu.with_reg(
                    CX,
                    (((((cylinders - 1) as u16) % 0x100) * 0x100) as u16 | (((cylinders - 1) as u16)
                        / 4) & 0xC0u16 | sectors as u16) as u32,
                ).with_reg(DX, ((heads - 1) * 0x100 + 1) as u32).with_reg(
                    BX,
                    (old(self)@.cpu.regs[BX as int] / 0x100 % 0x100 * 0x100 + 4) as u32,
                ),
            ).disk_ok(0),
    {
        let last: u16 = cylinders - 1;
        let bx: u32 = self.cpu.regs[BX] / 0x100 % 0x100 * 0x100 + 4;
        self.cpu.set_reg32(CX, ((last % 0x100) * 0x100 | (last / 4) & 0xC0 | sectors as u16) as u32);
        self.cpu.set_reg32(DX, (heads as u32 - 1) * 0x100 + 1);
        self.cpu.set_reg32(BX, bx);
        self.disk_ok(0);
    }

    fn bios_disk(&mut self)
        requires
            old(self)@.disk_served() is Some,
        ensures
            Some(final(self)@) == old(self)@.disk_served(),
    {
        proof {
            reveal(State::disk_served);
        }
        let ax: u32 = self.cpu.regs[AX];
        let cx: u16 = (self.cpu.regs[CX] % 0x1_0000) as u16;
        let dx: u16 = (self.cpu.regs[DX] % 0x1_0000) as u16;
        let ah: u8 = (ax / 0x100 % 0x100) as u8;
        let cyl: u16 = cx / 0x100 + cx / 0x40 % 4 * 0x100;
        let found: Option<(Option<usize>, u16, u8, u8)> = match &self.board.disk {
            None => None,
            Some(d) => Some(
                (
                    d.chs_to_lba(cyl, (dx / 0x100) as u8, (cx % 0x40) as u8),
                    d.cylinders,
                    d.heads,
                    d.sectors,
                ),
            ),
        };
        match found {
            None => self.disk_error(0x80),
            Some((lba, cylinders, heads, sectors)) => {
                if ah == 0x00 || (0x16 <= ah && ah <= 0x18) {
                    self.disk_ok(0);
                } else if ah == 0x02 || ah == 0x03 {
                    let addr: u32 = linear(
                        self.cpu.sregs[ES],
                        (self.cpu.regs[BX] % 0x1_0000) as u16,
                    );
                    let count: u8 = (ax % 0x100) as u8;
                    match lba {
                        None => self.disk_error(4),
                        Some(n) => {
                            if ah == 0x02 {
                                self.read_sectors(n, count, addr);
                            } else {
                                self.write_sectors(n, count, addr);
                            }
                        },
                    }
                } else if ah == 0x08 {
                    self.disk_shape(cylinders, heads, sectors);
                } else if ah == 0x15 {
                    self.cpu.set_reg32(AX, ax % 0x100 + 0x100);
                    self.cpu.set_flag(CF, false);
                } else {
                    self.disk_error(1);
                }
            },
        }
    }

    // ---- all services ----

    fn end_irq(&mut self)
        ensures
            final(self)@ == old(self)@.irq_ended(),
    {
        self.io_write8(0x20, 0x20);
    }

    /// Does the service of an interrupt that points to the firmware. `false` means
    /// that the call waits for a key and has to be made again.
    pub fn bios_interrupt(&mut self, n: u8) -> (done: bool)
        requires
            old(self)@.bios_served(n) is Some,
        ensures
            Some((final(self)@, done)) == old(self)@.bios_served(n),
    {
        proof {
            reveal(State::bios_served);
            reveal(State::tick_counted);
        }
        let ax: u32 = self.cpu.regs[AX];
        if n == 0x10 {
            self.bios_video();
        } else if n == 0x08 {
            let t: u32 = self.read_ticks();
            self.write_ticks(t.wrapping_add(1));
            self.end_irq();
        } else if n == 0x09 {
            self.keyboard_isr();
            self.end_irq();
        } else if 0x0A <= n && n <= 0x0F {
            self.end_irq();
        } else if 0x70 <= n && n <= 0x77 {
            self.io_write8(0xA0, 0x20);
            self.end_irq();
        } else if n == 0x1C {
        } else if n == 0x11 {
            self.cpu.set_reg32(AX, 0x21);
        } else if n == 0x12 {
            self.cpu.set_reg32(AX, 640);
        } else if n == 0x13 {
            self.bios_disk();
        } else if n == 0x15 {
            self.cpu.set_flag(CF, true);
            self.cpu.set_reg32(AX, ax % 0x100 + 0x8600);
        } else if n == 0x16 {
            return self.bios_keys();
        } else {
            self.bios_clock();
        }
        true
    }
}

proof fn lemma_bytes_read_keeps(s: State, addr: u32, n: nat, got: Seq<u8>)
    ensures
        s.bytes_read(addr, n, got).0.board == s.board,
    decreases n - got.len(),
{
    reveal_with_fuel(State::bytes_read, 2);
    if got.len() < n {
        let a = addr.wrapping_add(got.len() as u32);
        crate::machine::lemma_read_keeps(s, a);
        let (t, v) = s.read8(a);
        lemma_bytes_read_keeps(t, addr, n, got.push(v));
    }
}

impl State {
    /// A word of memory.
    pub open spec fn word(self, at: int) -> u16 {
        crate::machine::le16(self.mem[at], self.mem[at + 1])
    }

    /// The data area is in memory and reached without paging, and the keyboard queue
    /// in it begins and ends at one of its sixteen places.
    pub open spec fn queue_ok(self) -> bool {
        &&& !self.cpu.pg()
        &&& self.mem.len() >= 0x500
        &&& 0x1E <= self.word(BDA_KB_HEAD as int) <= 0x3C
        &&& 0x1E <= self.word(BDA_KB_TAIL as int) <= 0x3C
        &&& self.word(BDA_KB_HEAD as int) % 2 == 0
        &&& self.word(BDA_KB_TAIL as int) % 2 == 0
    }

    /// The keys in the queue, the oldest first.
    pub open spec fn keys(self) -> Seq<u16> {
        let head = self.word(BDA_KB_HEAD as int) as int;
        let tail = self.word(BDA_KB_TAIL as int) as int;
        let count = (if tail >= head { tail - head } else { tail + 32 - head }) / 2;
        Seq::new(
            count as nat,
            |i: int|
                self.word(
                    BDA_SEG + (if head + 2 * i < 0x3E { head + 2 * i } else { head + 2 * i - 32 }),
                ),
        )
    }
}

pub proof fn lemma_word_read(s: State, at: u32)
    requires
        !s.cpu.pg(),
        at + 1 < s.mem.len(),
        at + 1 <= u32::MAX,
    ensures
        s.read16(at) == (s, s.word(at as int)),
{
    reveal(State::read16);
    reveal(State::read8);
    reveal(State::phys8);
    reveal(State::translate);
}

pub proof fn lemma_word_written(s: State, at: u32, v: u16)
    requires
        !s.cpu.pg(),
        at + 1 < s.mem.len(),
        at + 1 <= u32::MAX,
    ensures
        ({
            let t = s.write16(at, v);
            &&& t.mem.len() == s.mem.len()
            &&& t.cpu == s.cpu
            &&& t.word(at as int) == v
            &&& forall|k: int|
                0 <= k < s.mem.len() && k != at && k != at + 1 ==> #[trigger] t.mem[k] == s.mem[k]
        }),
{
    reveal(State::write16);
    reveal(State::with_phys8);
    reveal(State::translate);
    crate::machine::law_bytes_of_word(v as u32);
}

/// A key goes to the end of the queue; fifteen fit, and what comes beyond is lost.
pub proof fn law_key_queued(s: State, entry: u16)
    requires
        s.queue_ok(),
    ensures
        s.key_queued(entry).queue_ok(),
        s.key_queued(entry).keys() == if s.keys().len() < 15 {
            s.keys().push(entry)
        } else {
            s.keys()
        },
{
    reveal(State::key_queued);
    lemma_word_read(s, BDA_KB_TAIL);
    lemma_word_read(s, BDA_KB_HEAD);
    let tail = s.word(BDA_KB_TAIL as int);
    let head = s.word(BDA_KB_HEAD as int);
    if next_key(tail) != head {
        let at = (BDA_SEG + tail) as u32;
        lemma_word_written(s, at, entry);
        let s1 = s.write16(at, entry);
        lemma_word_written(s1, BDA_KB_TAIL, next_key(tail));
        let t = s1.write16(BDA_KB_TAIL, next_key(tail));
        assert(t.word(BDA_KB_HEAD as int) == head);
        assert(t.keys() =~= s.keys().push(entry));
    }
}

/// The oldest key comes out of the queue first, and only it.
pub proof fn law_key_taken(s: State)
    requires
        s.queue_ok(),
    ensures
        s.peek_key() == (s, if s.keys().len() == 0 {
            None
        } else {
            Some(s.keys()[0])
        }),
        s.take_key().1 == s.peek_key().1,
        s.take_key().0.queue_ok(),
        s.take_key().0.keys() == if s.keys().len() == 0 {
            s.keys()
        } else {
            s.keys().skip(1)
        },
{
    reveal(State::peek_key);
    reveal(State::take_key);
    lemma_word_read(s, BDA_KB_TAIL);
    lemma_word_read(s, BDA_KB_HEAD);
    let tail = s.word(BDA_KB_TAIL as int);
    let head = s.word(BDA_KB_HEAD as int);
    if head != tail {
        lemma_word_read(s, (BDA_SEG + head) as u32);
        lemma_word_written(s, BDA_KB_HEAD, next_key(head));
        let t = s.write16(BDA_KB_HEAD, next_key(head));
        assert(t.word(BDA_KB_TAIL as int) == tail);
        assert(t.keys() =~= s.keys().skip(1));
    }
}

} // verus!
