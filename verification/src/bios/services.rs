//! The services of the firmware, said of the registers of the caller and of what they
//! leave there, in memory, on the disk and on the screen.

use vstd::prelude::*;
use crate::bus::Cmos;
use crate::cpu::state::{Cpu, AX, BP, BX, CF, CX, DX, ES, IF, ZF};
use crate::disk::DiskState;
use crate::machine::{BoardState, State};

verus! {

/// The low byte of a register.
pub open spec fn low(v: u32) -> int {
    v as int % 0x100
}

/// The byte above it.
pub open spec fn high(v: u32) -> int {
    v as int / 0x100 % 0x100
}

/// The cylinder that CX names: CH with bits 6 and 7 of CL above it.
pub open spec fn cylinder(c: Cpu) -> int {
    high(c.regs[CX as int]) + 0x100 * (low(c.regs[CX as int]) / 0x40)
}

/// The sector that CX names: the low six bits of CL.
pub open spec fn sector(c: Cpu) -> int {
    low(c.regs[CX as int]) % 0x40
}

/// The address of ES and a register.
pub open spec fn at_es(c: Cpu, r: usize) -> int {
    (16 * c.sregs[ES as int] + c.regs[r as int] % 0x1_0000) % 0x10_0000
}

/// A call for the sectors from the one on that CX and DH name, which are on the disk.
pub open spec fn transfer(s: State, d: DiskState, service: int, first: int) -> bool {
    let c = s.cpu;
    let (cyl, head, sec) = (cylinder(c), high(c.regs[DX as int]), sector(c));
    let n = low(c.regs[AX as int]);
    &&& high(c.regs[AX as int]) == service
    &&& s.board.disk == Some(d)
    &&& cyl < d.cylinders
    &&& head < d.heads
    &&& 1 <= sec <= d.sectors
    &&& first == (cyl * d.heads + head) * d.sectors + (sec - 1)
    &&& 512 * (first + n) <= d.image.len()
    &&& !c.pg()
    &&& at_es(c, BX) + 512 * n <= s.mem.len()
}

/// What a service leaves in AX and the carry, and that no other register changed.
pub open spec fn answered(c: Cpu, e: Cpu, ax: int, carry: bool) -> bool {
    &&& e.regs[AX as int] == ax
    &&& e.flag(CF) == carry
    &&& forall|r: int| 0 <= r < 8 && r != AX ==> #[trigger] e.regs[r] == c.regs[r]
    &&& e.sregs == c.sregs
    &&& e.ip == c.ip
}

proof fn lemma_answered(c: Cpu, v: u32, on: bool)
    ensures
        answered(c, c.with_reg(AX, v).with_flag(CF, on), v as int, on),
{
    crate::cpu::meaning::arith::lemma_carry_set(c.with_reg(AX, v), on);
}

proof fn lemma_bytes(v: u32)
    ensures
        ({
            let w = (v % 0x1_0000) as u16;
            &&& w / 0x100 == high(v)
            &&& w % 0x40 == low(v) % 0x40
            &&& w / 0x40 % 4 == low(v) / 0x40
            &&& v / 0x100 % 0x100 == high(v)
            &&& v % 0x100 == low(v)
        }),
{
}

/// What the disk services take out of the registers.
proof fn lemma_asked(s: State, d: DiskState)
    requires
        s.board.disk == Some(d),
    ensures
        ({
            let c = s.cpu;
            let service = high(c.regs[AX as int]);
            let n = low(c.regs[AX as int]) as u8;
            let at = at_es(c, BX) as u32;
            let place = d.lba_of(
                cylinder(c) as u16,
                high(c.regs[DX as int]) as u8,
                sector(c) as u8,
            );
            &&& s.bios_served(0x13) == match s.disk_served() {
                None => None,
                Some(u) => Some((u, true)),
            }
            &&& service == 2 ==> s.disk_served() == Some(
                match place {
                    None => s.disk_error(4),
                    Some(lba) => s.sectors_read(d, lba, n, at),
                },
            )
            &&& service == 3 ==> s.disk_served() == Some(
                match place {
                    None => s.disk_error(4),
                    Some(lba) => s.sectors_written(d, lba, n, at),
                },
            )
        }),
{
    lemma_bytes(s.cpu.regs[AX as int]);
    lemma_bytes(s.cpu.regs[CX as int]);
    lemma_bytes(s.cpu.regs[DX as int]);
    assert(s.bios_served(0x13) == match s.disk_served() {
        None => None,
        Some(u) => Some((u, true)),
    }) by {
        reveal(State::bios_served);
    }
    reveal(State::disk_served);
}

proof fn lemma_place(s: State, d: DiskState, service: int, first: int)
    requires
        transfer(s, d, service, first),
        service == 2 || service == 3,
    ensures
        0 <= first,
        s.bios_served(0x13) == Some(
            (
                if service == 2 {
                    s.sectors_read(
                        d,
                        first,
                        low(s.cpu.regs[AX as int]) as u8,
                        at_es(s.cpu, BX) as u32,
                    )
                } else {
                    s.sectors_written(
                        d,
                        first,
                        low(s.cpu.regs[AX as int]) as u8,
                        at_es(s.cpu, BX) as u32,
                    )
                },
                true,
            ),
        ),
{
    let c = s.cpu;
    let (cyl, head) = (cylinder(c), high(c.regs[DX as int]));
    assert(0 <= cyl * d.heads) by (nonlinear_arith)
        requires
            0 <= cyl,
            0 <= d.heads,
    ;
    let track = cyl * d.heads + head;
    assert(0 <= track * d.sectors) by (nonlinear_arith)
        requires
            0 <= track,
            0 <= d.sectors,
    ;
    lemma_asked(s, d);
}

/// A read of AL sectors from the disk, INT 13 with AH 2, puts at ES:BX the bytes of the
/// image from the sector on that CH, CL and DH name, and leaves the rest of memory and the
/// disk as they were; AX tells the number of sectors and carry is clear.
pub proof fn law_disk_read(s: State, d: DiskState, first: int, u: State)
    requires
        transfer(s, d, 2, first),
        s.bios_served(0x13) == Some((u, true)),
    ensures
        ({
            let n = low(s.cpu.regs[AX as int]);
            let to = at_es(s.cpu, BX);
            &&& answered(s.cpu, u.cpu, n, false)
            &&& u.board == s.board
            &&& u.mem.len() == s.mem.len()
            &&& forall|i: int|
                0 <= i < s.mem.len() ==> #[trigger] u.mem[i] == (if to <= i < to + 512 * n {
                    d.image[512 * first + (i - to)]
                } else {
                    s.mem[i]
                })
        }),
{
    lemma_place(s, d, 2, first);
    let n = low(s.cpu.regs[AX as int]) as u8;
    let to = at_es(s.cpu, BX) as u32;
    crate::bios::transfer::law_sectors_arrive(s, d, first, n, to);
    lemma_answered(s.cpu, n as u32, false);
    let b = if n == 0 {
        Seq::empty()
    } else {
        d.image.subrange(512 * first, 512 * (first + n))
    };
    crate::bios::transfer::lemma_written(s, to, b, 0);
    reveal(State::sectors_read);
}

/// A write of AL sectors, INT 13 with AH 3, puts the bytes at ES:BX into the image from the
/// sector on that CH, CL and DH name, and leaves the rest of the disk and memory as they
/// were.
pub proof fn law_disk_write(s: State, d: DiskState, first: int, u: State)
    requires
        transfer(s, d, 3, first),
        s.bios_served(0x13) == Some((u, true)),
    ensures
        ({
            let n = low(s.cpu.regs[AX as int]);
            let from = at_es(s.cpu, BX);
            &&& answered(s.cpu, u.cpu, n, false)
            &&& u.mem == s.mem
            &&& u.board.disk matches Some(e) && e == (DiskState { image: e.image, ..d })
                && e.image.len() == d.image.len() && forall|i: int|
                0 <= i < d.image.len() ==> #[trigger] e.image[i] == (if 512 * first <= i < 512 * (
                first + n) {
                    s.mem[from + (i - 512 * first)]
                } else {
                    d.image[i]
                })
        }),
{
    lemma_place(s, d, 3, first);
    let n = low(s.cpu.regs[AX as int]) as u8;
    let from = at_es(s.cpu, BX) as u32;
    crate::bios::transfer::law_sectors_kept(s, d, first, n, from);
    lemma_answered(s.cpu, n as u32, false);
    assert(Seq::<u8>::empty() =~= s.mem.subrange(from as int, from as int));
    crate::bios::transfer::lemma_read(s, from, (512 * n) as nat, Seq::empty());
    reveal(State::sectors_written);
}

/// A call for a sector that the disk does not have, or a read beyond its end, moves
/// nothing and is answered with error 4.
pub proof fn law_disk_refused(s: State, d: DiskState, u: State)
    requires
        s.bios_served(0x13) == Some((u, true)),
        s.board.disk == Some(d),
        high(s.cpu.regs[AX as int]) == 2 || high(s.cpu.regs[AX as int]) == 3,
        ({
            let c = s.cpu;
            let (cyl, head, sec) = (cylinder(c), high(c.regs[DX as int]), sector(c));
            let n = low(c.regs[AX as int]);
            let first = (cyl * d.heads + head) * d.sectors + (sec - 1);
            ||| cyl >= d.cylinders
            ||| head >= d.heads
            ||| sec == 0
            ||| sec > d.sectors
            ||| high(c.regs[AX as int]) == 2 && n > 0 && 512 * (first + n) > d.image.len()
        }),
    ensures
        answered(s.cpu, u.cpu, 0x400, true),
        u == (State { cpu: u.cpu, ..s }),
{
    lemma_asked(s, d);
    lemma_answered(s.cpu, 0x400, true);
    reveal(State::sectors_read);
}

/// Without a disk every call is answered with error 80.
pub proof fn law_no_disk(s: State, u: State)
    requires
        s.bios_served(0x13) == Some((u, true)),
        s.board.disk is None,
    ensures
        answered(s.cpu, u.cpu, 0x8000, true),
        u == (State { cpu: u.cpu, ..s }),
{
    reveal(State::bios_served);
    reveal(State::disk_served);
    lemma_answered(s.cpu, 0x8000, true);
}

/// The other disk services: AH 0 and 16 to 18 succeed with AX 0, AH 15 tells a disk with
/// no sign of a change, AH 41 is refused with error 1.
pub proof fn law_disk_others(s: State, d: DiskState, u: State)
    requires
        s.bios_served(0x13) == Some((u, true)),
        s.board.disk == Some(d),
    ensures
        ({
            let ah = high(s.cpu.regs[AX as int]);
            let al = low(s.cpu.regs[AX as int]);
            let same = u == (State { cpu: u.cpu, ..s });
            &&& ah == 0 || 0x16 <= ah <= 0x18 ==> answered(s.cpu, u.cpu, 0, false) && same
            &&& ah == 0x15 ==> answered(s.cpu, u.cpu, 0x100 + al, false) && same
            &&& ah == 0x41 ==> answered(s.cpu, u.cpu, 0x100, true) && same
        }),
{
    lemma_bytes(s.cpu.regs[AX as int]);
    let al = low(s.cpu.regs[AX as int]);
    lemma_answered(s.cpu, 0x100, true);
    lemma_answered(s.cpu, 0, false);
    lemma_answered(s.cpu, (0x100 + al) as u32, false);
    reveal(State::bios_served);
    reveal(State::disk_served);
}

proof fn lemma_shape(last: u16, sectors: u16)
    by (bit_vector)
    requires
        last < 1024,
        sectors < 64,
    ensures
        (((last % 0x100) * 0x100) as u16 | (last / 4) & 0xC0u16 | sectors) == last % 0x100 * 0x100
            + last / 0x100 * 0x40 + sectors,
{
}

/// The shape of the disk, INT 13 with AH 8: CX names the last cylinder and the last sector
/// as a transfer would, DH the last head, DL one drive, BL its kind.
pub proof fn law_disk_shape(s: State, d: DiskState, u: State)
    requires
        s.bios_served(0x13) == Some((u, true)),
        s.board.disk == Some(d),
        high(s.cpu.regs[AX as int]) == 8,
        1 <= d.cylinders <= 1024,
        d.heads >= 1,
        d.sectors < 64,
    ensures
        cylinder(u.cpu) == d.cylinders - 1,
        sector(u.cpu) == d.sectors,
        high(u.cpu.regs[DX as int]) == d.heads - 1,
        low(u.cpu.regs[DX as int]) == 1,
        low(u.cpu.regs[BX as int]) == 4,
        u.cpu.regs[AX as int] == 0,
        !u.cpu.flag(CF),
        u == (State { cpu: u.cpu, ..s }),
{
    reveal(State::bios_served);
    reveal(State::disk_served);
    lemma_shape((d.cylinders - 1) as u16, d.sectors as u16);
    let c = s.cpu;
    let last = (d.cylinders - 1) as u16;
    let e = c.with_reg(
        CX,
        (((last % 0x100) * 0x100) as u16 | (last / 4) & 0xC0u16 | d.sectors as u16) as u32,
    ).with_reg(DX, ((d.heads - 1) * 0x100 + 1) as u32).with_reg(
        BX,
        (c.regs[BX as int] / 0x100 % 0x100 * 0x100 + 4) as u32,
    );
    lemma_answered(e, 0, false);
    assert(u.cpu.regs[CX as int] == e.regs[CX as int]);
    assert(u.cpu.regs[DX as int] == e.regs[DX as int]);
    assert(u.cpu.regs[BX as int] == e.regs[BX as int]);
}

// ---- the clock ----

/// Time and date of the clock, INT 1A with AH 2 and 4: hours in CH, minutes in CL, seconds
/// in DH; century in CH, year in CL, month in DH, day in DL. With AH 3 and 5 they are set
/// from the same registers, and the rest of the clock stays.
pub proof fn law_clock(s: State, u: State)
    requires
        s.bios_served(0x1A) == Some((u, true)),
    ensures
        ({
            let (c, e) = (s.cpu, u.cpu);
            let (k, q) = (s.board.devices.cmos, u.board.devices.cmos);
            let ah = high(c.regs[AX as int]);
            &&& ah == 2 ==> high(e.regs[CX as int]) == k.hour && low(e.regs[CX as int]) == k.minute
                && high(e.regs[DX as int]) == k.second && low(e.regs[DX as int]) == 0 && !e.flag(
                CF,
            ) && u == (State { cpu: e, ..s })
            &&& ah == 4 ==> high(e.regs[CX as int]) == k.century && low(e.regs[CX as int]) == k.year
                && high(e.regs[DX as int]) == k.month && low(e.regs[DX as int]) == k.day && !e.flag(
                CF,
            ) && u == (State { cpu: e, ..s })
            &&& ah == 3 ==> q == (Cmos {
                hour: high(c.regs[CX as int]) as u8,
                minute: low(c.regs[CX as int]) as u8,
                second: high(c.regs[DX as int]) as u8,
                ..k
            })
            &&& ah == 5 ==> q == (Cmos {
                century: high(c.regs[CX as int]) as u8,
                year: low(c.regs[CX as int]) as u8,
                month: high(c.regs[DX as int]) as u8,
                day: low(c.regs[DX as int]) as u8,
                ..k
            })
            &&& ah == 3 || ah == 5 ==> e == c && u.mem == s.mem
        }),
{
    let c = s.cpu;
    let k = s.board.devices.cmos;
    lemma_bytes(c.regs[AX as int]);
    lemma_bytes(c.regs[CX as int]);
    lemma_bytes(c.regs[DX as int]);
    reveal(State::bios_served);
    reveal(State::clock_served);
    crate::cpu::meaning::arith::lemma_carry_set(
        c.with_reg(CX, (0x100 * k.hour + k.minute) as u32).with_reg(
            DX,
            (0x100 * k.second) as u32,
        ),
        false,
    );
    crate::cpu::meaning::arith::lemma_carry_set(
        c.with_reg(CX, (0x100 * k.century + k.year) as u32).with_reg(
            DX,
            (0x100 * k.month + k.day) as u32,
        ),
        false,
    );
}

/// The memory that a service works on is all there and reached without paging.
pub open spec fn plain(s: State) -> bool {
    &&& !s.cpu.pg()
    &&& s.mem.len() >= 0x10_0000
}

/// The count of ticks in the data area.
pub open spec fn ticks(s: State) -> int {
    s.mem[0x46C] + 0x100 * s.mem[0x46D] + 0x1_0000 * s.mem[0x46E] + 0x100_0000 * s.mem[0x46F]
}

/// INT 1A with AH 0 gives the ticks in CX and DX, and with AH 1 sets them from there; the
/// timer interrupt, INT 8, counts one more, from the last to zero.
pub proof fn law_ticks(s: State, u: State)
    requires
        plain(s),
        s.bios_served(0x1A) == Some((u, true)),
    ensures
        ({
            let c = s.cpu;
            let ah = high(c.regs[AX as int]);
            &&& ah == 0 ==> u.cpu.regs[DX as int] + 0x1_0000 * u.cpu.regs[CX as int] == ticks(s)
                && u.cpu.regs[DX as int] < 0x1_0000 && u.mem == s.mem
            &&& ah == 1 ==> ticks(u) == c.regs[DX as int] % 0x1_0000 + 0x1_0000 * (
            c.regs[CX as int] % 0x1_0000) && u.cpu == c
        }),
        s.bios_served(0x08) == Some((s.tick_counted(), true)),
        ticks(s.tick_counted()) == (ticks(s) + 1) % 0x1_0000_0000,
{
    lemma_bytes(s.cpu.regs[AX as int]);
    reveal(State::bios_served);
    reveal(State::clock_served);
    lemma_ticks_read(s);
    let v = (s.cpu.regs[DX as int] % 0x1_0000 + 0x1_0000 * (s.cpu.regs[CX as int]
        % 0x1_0000)) as u32;
    lemma_ticks_written(s, v);
    let w = ((ticks(s) + 1) % 0x1_0000_0000) as u32;
    lemma_ticks_written(s, w);
    reveal(State::tick_counted);
}

proof fn lemma_ticks_read(s: State)
    requires
        plain(s),
    ensures
        s.read_ticks() == (s, ticks(s) as u32),
        0 <= ticks(s) <= u32::MAX,
{
    reveal(State::read_ticks);
    crate::bios::lemma_word_read(s, 0x46C);
    crate::bios::lemma_word_read(s, 0x46E);
}

proof fn lemma_ticks_written(s: State, v: u32)
    requires
        plain(s),
    ensures
        ticks(s.write_ticks(v)) == v,
        s.write_ticks(v).cpu == s.cpu,
        s.write_ticks(v).mem.len() == s.mem.len(),
{
    reveal(State::write_ticks);
    crate::bios::lemma_word_written(s, 0x46C, (v % 0x1_0000) as u16);
    let t = s.write16(0x46C, (v % 0x1_0000) as u16);
    crate::bios::lemma_word_written(t, 0x46E, (v / 0x1_0000) as u16);
}

// ---- small services ----

/// INT 11 tells the devices and INT 12 the kilobytes of memory; INT 15 refuses with 86 in
/// AH.
pub proof fn law_small_services(s: State, n: u8, u: State)
    requires
        s.bios_served(n) == Some((u, true)),
    ensures
        n == 0x11 ==> u == (State { cpu: s.cpu.with_reg(AX, 0x21), ..s }),
        n == 0x12 ==> u == (State { cpu: s.cpu.with_reg(AX, 640), ..s }),
        n == 0x15 ==> u == (State { cpu: u.cpu, ..s }) && high(u.cpu.regs[AX as int]) == 0x86 && low(
            u.cpu.regs[AX as int],
        ) == low(s.cpu.regs[AX as int]) && u.cpu.flag(CF),
        n == 0x1C ==> u == s,
{
    reveal(State::bios_served);
    let ax = s.cpu.regs[AX as int];
    let c = s.cpu.with_flag(CF, true);
    crate::cpu::meaning::arith::lemma_carry_set(s.cpu, true);
    crate::cpu::meaning::arith::lemma_flags_apart(c, c.with_reg(AX, (ax % 0x100 + 0x8600) as u32));
}

// ---- the keyboard ----

/// INT 16 with AH 0 takes the oldest key to AX, or waits with interrupts on; with AH 1 it
/// shows the oldest key and leaves it, and the zero flag says that there is none; with AH
/// 2 AL holds the modifiers.
pub proof fn law_keyboard(s: State, u: State, done: bool)
    requires
        s.queue_ok(),
        s.bios_served(0x16) == Some((u, done)),
    ensures
        ({
            let ah = high(s.cpu.regs[AX as int]);
            let none = s.keys().len() == 0;
            let first = s.keys()[0];
            &&& ah == 0 || ah == 0x10 ==> done != none
            &&& (ah == 0 || ah == 0x10) && !none ==> u.cpu == s.cpu.with_reg(AX, first as u32)
                && u.keys() == s.keys().skip(1)
            &&& (ah == 0 || ah == 0x10) && none ==> u.cpu == s.cpu.with_flag(IF, true) && u.mem
                == s.mem
            &&& ah == 1 || ah == 0x11 ==> done && u.mem == s.mem
            &&& (ah == 1 || ah == 0x11) && none ==> u.cpu == s.cpu.with_flag(ZF, true)
            &&& (ah == 1 || ah == 0x11) && !none ==> u.cpu == s.cpu.with_reg(
                AX,
                first as u32,
            ).with_flag(ZF, false)
            &&& ah == 2 || ah == 0x12 ==> done && u.mem == s.mem && u.cpu == s.cpu.with_reg(
                AX,
                (0x100 * ah + s.mem[0x417]) as u32,
            )
        }),
{
    lemma_bytes(s.cpu.regs[AX as int]);
    crate::bios::law_key_taken(s);
    lemma_taken_keeps(s);
    let t = s.take_key().0;
    assert(t.with_ax(s.keys()[0] as u32).keys() =~= t.keys());
    assert(s.read8(0x417) == (s, s.mem[0x417])) by {
        reveal(State::read8);
        reveal(State::phys8);
        reveal(State::translate);
    }
    reveal(State::bios_served);
    reveal(State::keys_served);
}

proof fn lemma_taken_keeps(s: State)
    requires
        s.queue_ok(),
    ensures
        s.take_key().0.cpu == s.cpu,
        s.keys().len() == 0 ==> s.take_key().0 == s,
{
    reveal(State::take_key);
    crate::bios::lemma_word_read(s, crate::bios::BDA_KB_TAIL);
    crate::bios::lemma_word_read(s, crate::bios::BDA_KB_HEAD);
    let head = s.word(crate::bios::BDA_KB_HEAD as int);
    crate::bios::lemma_word_read(s, (crate::bios::BDA_SEG + head) as u32);
    crate::bios::lemma_word_written(s, crate::bios::BDA_KB_HEAD, crate::bios::next_key(head));
}

// ---- the screen ----

/// INT 10 with AH 2 puts the cursor to row DH and column DL, and with AH 3 tells it there.
pub proof fn law_cursor(s: State, u: State)
    requires
        s.bios_served(0x10) == Some((u, true)),
    ensures
        ({
            let (c, e) = (s.cpu, u.cpu);
            let ah = high(c.regs[AX as int]);
            let (row, col) = (high(c.regs[DX as int]), low(c.regs[DX as int]));
            &&& ah == 2 ==> u.board.devices.cursor == 80 * row + col && e == c && u.mem == s.mem
            &&& ah == 3 && s.board.devices.cursor < 80 * 0x100 ==> 80 * high(e.regs[DX as int])
                + low(e.regs[DX as int]) == s.board.devices.cursor && low(e.regs[DX as int]) < 80
                && e.regs[CX as int] == 0x0607 && u == (State { cpu: e, ..s })
            &&& ah == 0x0F ==> e.regs[AX as int] == 0x5003 && high(e.regs[BX as int]) == 0 && u == (
            State { cpu: e, ..s })
        }),
{
    lemma_bytes(s.cpu.regs[AX as int]);
    lemma_bytes(s.cpu.regs[DX as int]);
    reveal(State::bios_served);
    reveal(State::video_served);
}

/// INT 10 with AH 6 and 7 scrolls the window from row CH and column CL to row DH and column
/// DL by AL rows up and down; the rows that become free have the attribute BH.
pub proof fn law_scroll_service(s: State, u: State)
    requires
        s.bios_served(0x10) == Some((u, true)),
        s.screen_ok(),
        high(s.cpu.regs[AX as int]) == 6 || high(s.cpu.regs[AX as int]) == 7,
        high(s.cpu.regs[CX as int]) <= high(s.cpu.regs[DX as int]) < 25,
        low(s.cpu.regs[CX as int]) <= low(s.cpu.regs[DX as int]) < 80,
    ensures
        ({
            let c = s.cpu;
            let (top, left) = (high(c.regs[CX as int]), low(c.regs[CX as int]));
            let (bottom, right) = (high(c.regs[DX as int]), low(c.regs[DX as int]));
            let al = low(c.regs[AX as int]);
            let n: int = if al == 0 {
                bottom - top + 1
            } else {
                al
            };
            &&& u.same_but_screen(s)
            &&& forall|r: int, q: int|
                0 <= r < 25 && 0 <= q < 80 ==> #[trigger] u.shown(r, q)
                    == crate::bios::scroll::after_move(
                    s,
                    n,
                    top,
                    left,
                    bottom,
                    right,
                    high(c.regs[BX as int]) as u8,
                    high(c.regs[AX as int]) == 6,
                    r,
                    q,
                )
        }),
{
    let c = s.cpu;
    lemma_bytes(c.regs[AX as int]);
    lemma_bytes(c.regs[BX as int]);
    lemma_bytes(c.regs[CX as int]);
    lemma_bytes(c.regs[DX as int]);
    assert(u == s.scrolled(
        high(c.regs[CX as int]) as nat,
        low(c.regs[CX as int]) as nat,
        high(c.regs[DX as int]) as nat,
        low(c.regs[DX as int]) as nat,
        low(c.regs[AX as int]) as u8,
        high(c.regs[BX as int]) as u8,
        high(c.regs[AX as int]) == 6,
    )) by {
        reveal(State::bios_served);
        reveal(State::video_served);
    }
    crate::bios::scroll::law_scrolled(
        s,
        high(c.regs[CX as int]) as nat,
        low(c.regs[CX as int]) as nat,
        high(c.regs[DX as int]) as nat,
        low(c.regs[DX as int]) as nat,
        low(c.regs[AX as int]) as u8,
        high(c.regs[BX as int]) as u8,
        high(c.regs[AX as int]) == 6,
    );
}

} // verus!
