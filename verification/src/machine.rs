//! The machine: processor, memory and what hangs on the bus, and the memory
//! accesses of the processor through paging.

use vstd::prelude::*;
use crate::boot::bzimage::Lfb;
use crate::bus::Devices;
use crate::cpu::dcache::{CacheState, DecodeCache};
use crate::cpu::float::FloatRequest;
use crate::cpu::state::{Cpu, SlimSave, CS};
use crate::disk::{Disk, DiskState};
use crate::walk::Mark;

verus! {

/// An access that was refused: the exception, the linear address and the error
/// code. Of a page fault, exception 14, bit 0 of the code says that the page was
/// present, bit 1 a write, bit 2 user code; of an access that a segment does not
/// allow, exception 12 or 13, address and code are zero.
#[derive(Clone, Copy, Debug, PartialEq, Eq, Structural)]
pub struct Fault {
    pub vector: u8,
    pub addr: u32,
    pub code: u32,
}

/// Why the machine stopped: an instruction that it does not have.
#[derive(Clone, Copy, Debug, PartialEq, Eq, Structural)]
pub enum TrapReason {
    /// An opcode of the one-byte table.
    Opcode { op: u8 },
    /// An opcode after `0F`.
    Opcode0f { op: u8 },
    /// A slot of an opcode group.
    Group { op: u8, slot: u8 },
    /// A segment register number that does not exist, in a load or a store.
    SegmentRegister { number: u8, load: bool },
    /// A register where only a memory operand makes sense.
    RegisterOperand { op: u8 },
    /// An FPU instruction: the opcode and its ModRM byte.
    Fpu { op: u8, modrm: u8 },
    /// CPUID on a machine that does not have it.
    NoCpuid,
}

#[derive(Clone, Copy, Debug, PartialEq, Eq, Structural)]
pub struct Trap {
    pub reason: TrapReason,
    pub cs: u16,
    pub ip: u32,
}

/// What was saved to take the current instruction back after a page fault.
#[derive(Clone, Copy)]
pub enum Guard {
    Nothing,
    /// The whole processor.
    Full(Cpu),
    /// The part that a cached instruction can change.
    Slim(SlimSave),
}

/// A port access, in the order in which the processor made them.
#[derive(Clone, Copy, Debug, PartialEq, Eq, Structural)]
pub enum PortEvent {
    Read { port: u16, bytes: u8 },
    Write { port: u16, bytes: u8, value: u32 },
}

/// Which generation of processor the machine has.
#[derive(Clone, Copy, Debug, PartialEq, Eq, Structural)]
pub struct MachineProfile {
    pub has_fpu: bool,
    pub has_cpuid: bool,
}

/// What happened so far, for those who look into a machine.
pub struct Log {
    /// The first fault: vector, CS and IP.
    pub first_fault: Option<(u8, u16, u32)>,
    pub int_counts: [u64; 256],
    /// Where each vector was first taken.
    pub int_first: [(u16, u32); 256],
    /// The last interrupts, 32 at the most.
    pub int_recent: Vec<(u8, u16, u32)>,
    /// Opcodes that were seen with an operand size prefix.
    pub prefixed_seen: [bool; 256],
}

#[verifier::ext_equal]
pub struct LogState {
    pub first_fault: Option<(u8, u16, u32)>,
    pub int_counts: [u64; 256],
    pub int_first: [(u16, u32); 256],
    pub int_recent: Seq<(u8, u16, u32)>,
    pub prefixed_seen: [bool; 256],
}

impl LogState {
    /// Nothing has happened yet.
    pub open spec fn is_empty(self) -> bool {
        &&& self.first_fault is None
        &&& forall|i: int| 0 <= i < 256 ==> #[trigger] self.int_counts[i] == 0
        &&& forall|i: int| 0 <= i < 256 ==> #[trigger] self.int_first[i] == (0u16, 0u32)
        &&& self.int_recent == Seq::<(u8, u16, u32)>::empty()
        &&& forall|i: int| 0 <= i < 256 ==> !#[trigger] self.prefixed_seen[i]
    }
}

impl View for Log {
    type V = LogState;

    open spec fn view(&self) -> LogState {
        LogState {
            first_fault: self.first_fault,
            int_counts: self.int_counts,
            int_first: self.int_first,
            int_recent: self.int_recent@,
            prefixed_seen: self.prefixed_seen,
        }
    }
}

/// What the firmware works with.
pub struct Board {
    pub devices: Devices,
    pub disk: Option<Disk>,
    /// What the firmware wrote to the screen as text.
    pub console: Vec<u8>,
    /// The video modes that were asked for.
    pub video_modes: [bool; 128],
    /// Whether the firmware is the library's own.
    pub bios_hle: bool,
    /// The framebuffer that a kernel is told of.
    pub lfb: Option<Lfb>,
}

#[verifier::ext_equal]
pub struct BoardState {
    pub devices: Devices,
    pub disk: Option<DiskState>,
    pub console: Seq<u8>,
    pub video_modes: [bool; 128],
    pub bios_hle: bool,
    pub lfb: Option<Lfb>,
}

impl View for Board {
    type V = BoardState;

    open spec fn view(&self) -> BoardState {
        BoardState {
            devices: self.devices,
            disk: match self.disk {
                Some(d) => Some(d@),
                None => None,
            },
            console: self.console@,
            video_modes: self.video_modes,
            bios_hle: self.bios_hle,
            lfb: self.lfb,
        }
    }
}

pub struct Machine {
    pub cpu: Cpu,
    /// Physical memory.
    pub mem: Vec<u8>,
    pub dcache: DecodeCache,
    pub profile: MachineProfile,
    /// What a read of each port gives. The chips behind the ports keep it.
    pub port_latch: Vec<u8>,
    /// Port accesses that the chips have not taken notice of yet.
    pub port_events: Vec<PortEvent>,
    pub halted: bool,
    /// The first access of the current instruction that was refused.
    pub pending_fault: Option<Fault>,
    /// The processor itself is accessing memory, whatever the privilege level.
    pub sys_access: bool,
    /// Bits that page walks raised and that are not in the page tables yet.
    pub marks: Vec<Mark>,
    pub guard: Guard,
    /// What the last instruction asks of the floating-point unit.
    pub float_request: Option<FloatRequest>,
    /// Start of the current instruction, for faults that restart it.
    pub trap_ip: u32,
    pub trap: Option<Trap>,
    pub log: Log,
    pub pending_irq: Option<u8>,
    pub pic_service: bool,
    /// Instructions until the next timer tick, and from one to the next.
    pub tick_countdown: u32,
    pub tick_period: u32,
    /// Timer ticks that the chips have not taken notice of yet.
    pub ticks: u64,
    pub board: Board,
}

/// What a [`Machine`] is, as contracts speak of it.
#[verifier::ext_equal]
pub struct State {
    pub cpu: Cpu,
    pub mem: Seq<u8>,
    pub dcache: CacheState,
    pub profile: MachineProfile,
    pub port_latch: Seq<u8>,
    pub port_events: Seq<PortEvent>,
    pub halted: bool,
    pub pending_fault: Option<Fault>,
    pub sys_access: bool,
    pub marks: Seq<Mark>,
    pub guard: Guard,
    pub float_request: Option<FloatRequest>,
    pub trap_ip: u32,
    pub trap: Option<Trap>,
    pub log: LogState,
    pub pending_irq: Option<u8>,
    pub pic_service: bool,
    pub tick_countdown: u32,
    pub tick_period: u32,
    pub ticks: u64,
    pub board: BoardState,
}

impl View for Machine {
    type V = State;

    open spec fn view(&self) -> State {
        State {
            cpu: self.cpu,
            mem: self.mem@,
            dcache: self.dcache@,
            profile: self.profile,
            port_latch: self.port_latch@,
            port_events: self.port_events@,
            halted: self.halted,
            pending_fault: self.pending_fault,
            sys_access: self.sys_access,
            marks: self.marks@,
            guard: self.guard,
            float_request: self.float_request,
            trap_ip: self.trap_ip,
            trap: self.trap,
            log: self.log@,
            pending_irq: self.pending_irq,
            pic_service: self.pic_service,
            tick_countdown: self.tick_countdown,
            tick_period: self.tick_period,
            ticks: self.ticks,
            board: self.board@,
        }
    }
}

/// The word with these bytes, the low one first.
#[verifier::allow_in_spec]
pub fn le16(a: u8, b: u8) -> u16
    returns
        (a + 0x100 * b) as u16,
{
    a as u16 + 0x100 * b as u16
}

/// The doubleword with these halves, the low one first.
#[verifier::allow_in_spec]
pub fn le32(lo: u16, hi: u16) -> u32
    returns
        (lo + 0x1_0000 * hi) as u32,
{
    lo as u32 + 0x1_0000 * hi as u32
}

/// Byte `i` of a doubleword, counted from the low end.
#[verifier::allow_in_spec]
pub fn byte_of(v: u32, i: u32) -> u8
    returns
        (if i == 0 {
            (v % 0x100) as u8
        } else if i == 1 {
            (v / 0x100 % 0x100) as u8
        } else if i == 2 {
            (v / 0x1_0000 % 0x100) as u8
        } else {
            (v / 0x100_0000) as u8
        }),
{
    if i == 0 {
        (v % 0x100) as u8
    } else if i == 1 {
        (v / 0x100 % 0x100) as u8
    } else if i == 2 {
        (v / 0x1_0000 % 0x100) as u8
    } else {
        (v / 0x100_0000) as u8
    }
}

/// A doubleword is put together again from its bytes, and so is a word.
pub proof fn law_bytes_of_word(v: u32)
    ensures
        le32(le16(byte_of(v, 0), byte_of(v, 1)), le16(byte_of(v, 2), byte_of(v, 3))) == v,
        v <= 0xFFFF ==> le16(byte_of(v, 0), byte_of(v, 1)) == v,
{
}

/// The bytes of a doubleword are those that it was put together from.
pub proof fn law_word_of_bytes(a: u8, b: u8, c: u8, e: u8)
    ensures
        byte_of(le32(le16(a, b), le16(c, e)), 0) == a,
        byte_of(le32(le16(a, b), le16(c, e)), 1) == b,
        byte_of(le32(le16(a, b), le16(c, e)), 2) == c,
        byte_of(le32(le16(a, b), le16(c, e)), 3) == e,
{
    let v = le32(le16(a, b), le16(c, e));
    assert(v == a + 0x100 * b + 0x1_0000 * c + 0x100_0000 * e);
}

impl State {
    pub open spec fn with_cpu(self, cpu: Cpu) -> State {
        State { cpu, ..self }
    }

    // ---- physical memory ----

    /// A byte of physical memory. Where there is no memory the bus floats high.
    #[verifier::opaque]
    pub open spec fn phys8(self, pa: u32) -> u8 {
        if pa < self.mem.len() {
            self.mem[pa as int]
        } else {
            0xFF
        }
    }

    #[verifier::opaque]
    pub open spec fn phys32(self, pa: u32) -> u32 {
        le32(
            le16(self.phys8(pa), self.phys8(pa.wrapping_add(1))),
            le16(self.phys8(pa.wrapping_add(2)), self.phys8(pa.wrapping_add(3))),
        )
    }

    #[verifier::opaque]
    pub open spec fn with_phys8(self, pa: u32, v: u8) -> State {
        if pa < self.mem.len() {
            State {
                mem: self.mem.update(pa as int, v),
                dcache: self.dcache.noted(pa),
                ..self
            }
        } else {
            self
        }
    }

    // ---- paging ----

    /// Physical address of a linear one, or the page fault that the access gives.
    /// Both levels of the page table must be present; user code needs the user
    /// bit in both, and a write needs the write bit in both, unless the processor
    /// runs as supervisor and CR0 does not ask it to honour the bit.
    #[verifier::opaque]
    pub open spec fn translate(self, lin: u32, write: bool) -> Result<u32, Fault> {
        if !self.cpu.pg() {
            Ok(lin)
        } else {
            let user = self.cpu.cpl() == 3 && !self.sys_access;
            let miss: u32 = (if write { 2u32 } else { 0u32 }) | (if user { 4u32 } else { 0u32 });
            let pde = self.phys32((self.cpu.cr3 & 0xFFFF_F000) | ((lin >> 22) << 2));
            let pte = self.phys32((pde & 0xFFFF_F000) | (((lin >> 12) & 0x3FF) << 2));
            let both = pde & pte;
            let guarded = user || self.cpu.cr0 & 0x1_0000 != 0;
            if pde & 1 == 0 || pte & 1 == 0 {
                Err(Fault { vector: 14, addr: lin, code: miss })
            } else if user && both & 4 == 0 || write && guarded && both & 2 == 0 {
                Err(Fault { vector: 14, addr: lin, code: miss | 1 })
            } else {
                Ok((pte & 0xFFFF_F000) | (lin & 0xFFF))
            }
        }
    }

    /// Where the page directory keeps its entry for an address.
    pub open spec fn pde_at(self, lin: u32) -> u32 {
        (self.cpu.cr3 & 0xFFFF_F000) | ((lin >> 22) << 2)
    }

    /// Where the page table keeps its entry for an address.
    pub open spec fn pte_at(self, lin: u32) -> u32 {
        (self.phys32(self.pde_at(lin)) & 0xFFFF_F000) | (((lin >> 12) & 0x3FF) << 2)
    }

    /// A write to a physical byte leaves the table entries of an address alone.
    pub open spec fn apart(self, lin: u32, pa: u32) -> bool {
        self.cpu.pg() ==> !(self.pde_at(lin) <= pa < self.pde_at(lin) + 4) && !(self.pte_at(lin)
            <= pa < self.pte_at(lin) + 4)
    }

    /// Where in memory a write to an address goes.
    pub open spec fn place(self, lin: u32) -> u32 {
        self.translate(lin, true)->Ok_0
    }

    /// A write to an address goes to memory.
    pub open spec fn lands(self, lin: u32) -> bool {
        self.translate(lin, true) is Ok && self.place(lin) < self.mem.len()
    }

    /// A number of bytes at an address that can be written, none of which is part of a
    /// table entry that they are looked up with.
    #[verifier::opaque]
    pub open spec fn writable(self, lin: u32, n: u32) -> bool {
        &&& forall|i: u32| i < n ==> #[trigger] self.lands(lin.wrapping_add(i))
        &&& forall|i: u32, j: u32|
            i < n && j < n ==> #[trigger] self.apart(
                lin.wrapping_add(i),
                self.place(lin.wrapping_add(j)),
            )
    }

    pub open spec fn with_fault(self, f: Fault) -> State {
        if self.pending_fault is Some {
            self
        } else {
            State { pending_fault: Some(f), ..self }
        }
    }

    // ---- linear memory ----

    /// Reads a byte, and notes what the page walk raises. A read that faults notes the
    /// fault and gives zero.
    #[verifier::opaque]
    pub open spec fn read8(self, lin: u32) -> (State, u8) {
        match self.translate(lin, false) {
            Ok(pa) => (self.walked(lin, false), self.phys8(pa)),
            Err(f) => (self.with_fault(f), 0),
        }
    }

    #[verifier::opaque]
    pub open spec fn read16(self, lin: u32) -> (State, u16) {
        let (s1, a) = self.read8(lin);
        let (s2, b) = s1.read8(lin.wrapping_add(1));
        (s2, le16(a, b))
    }

    #[verifier::opaque]
    pub open spec fn read32(self, lin: u32) -> (State, u32) {
        let (s1, lo) = self.read16(lin);
        let (s2, hi) = s1.read16(lin.wrapping_add(2));
        (s2, le32(lo, hi))
    }

    /// Writes a byte, and notes what the page walk raises. A write that faults notes the
    /// fault and writes nothing.
    #[verifier::opaque]
    pub open spec fn write8(self, lin: u32, v: u8) -> State {
        match self.translate(lin, true) {
            Ok(pa) => self.walked(lin, true).with_phys8(pa, v),
            Err(f) => self.with_fault(f),
        }
    }

    /// Writes a word. It is written whole or, when either end faults, not at all.
    #[verifier::opaque]
    pub open spec fn write16(self, lin: u32, v: u16) -> State {
        match (self.translate(lin, true), self.translate(lin.wrapping_add(1), true)) {
            (Err(f), _) => self.with_fault(f),
            (_, Err(f)) => self.with_fault(f),
            (Ok(p), Ok(q)) => self.walked(lin, true).walked(
                lin.wrapping_add(1),
                true,
            ).with_phys8(p, byte_of(v as u32, 0)).with_phys8(q, byte_of(v as u32, 1)),
        }
    }

    /// Writes a doubleword, whole or not at all.
    #[verifier::opaque]
    pub open spec fn write32(self, lin: u32, v: u32) -> State {
        let t0 = self.translate(lin, true);
        let t1 = self.translate(lin.wrapping_add(1), true);
        let t2 = self.translate(lin.wrapping_add(2), true);
        let t3 = self.translate(lin.wrapping_add(3), true);
        match (t0, t1, t2, t3) {
            (Err(f), _, _, _) => self.with_fault(f),
            (_, Err(f), _, _) => self.with_fault(f),
            (_, _, Err(f), _) => self.with_fault(f),
            (_, _, _, Err(f)) => self.with_fault(f),
            (Ok(p0), Ok(p1), Ok(p2), Ok(p3)) => self.walked(lin, true).walked(
                lin.wrapping_add(3),
                true,
            ).with_phys8(p0, byte_of(v, 0)).with_phys8(p1, byte_of(v, 1)).with_phys8(
                p2,
                byte_of(v, 2),
            ).with_phys8(p3, byte_of(v, 3)),
        }
    }

    // ---- ports ----

    /// What a read of a port gives; no port answers with ones.
    pub open spec fn latch(self, port: u16) -> u8 {
        if port < self.port_latch.len() {
            self.port_latch[port as int]
        } else {
            0xFF
        }
    }

    pub open spec fn port_value(self, port: u16, bytes: u8) -> u32 {
        let a = self.latch(port);
        let b = self.latch(port.wrapping_add(1));
        let c = self.latch(port.wrapping_add(2));
        let d = self.latch(port.wrapping_add(3));
        if bytes == 1 {
            a as u32
        } else if bytes == 2 {
            le16(a, b) as u32
        } else {
            le32(le16(a, b), le16(c, d))
        }
    }

    pub open spec fn io_read(self, port: u16, bytes: u8) -> (State, u32) {
        (
            State { port_events: self.port_events.push(PortEvent::Read { port, bytes }), ..self },
            self.port_value(port, bytes),
        )
    }

    pub open spec fn io_write(self, port: u16, bytes: u8, value: u32) -> State {
        State {
            port_events: self.port_events.push(PortEvent::Write { port, bytes, value }),
            ..self
        }
    }

    // ---- stopping, counting, taking back ----

    pub open spec fn trapped(self, reason: TrapReason) -> State {
        if self.trap is Some {
            self
        } else {
            State {
                trap: Some(Trap { reason, cs: self.cpu.sregs[CS as int], ip: self.trap_ip }),
                ..self
            }
        }
    }

    pub open spec fn guarded(self) -> State {
        State { guard: Guard::Full(self.cpu), ..self }
    }

    pub open spec fn guarded_slim(self, ip: u32) -> State {
        State { guard: Guard::Slim(SlimSave { ip, ..self.cpu.slim() }), ..self }
    }

    /// The processor as it was when the guard was taken.
    pub open spec fn taken_back(self) -> State {
        match self.guard {
            Guard::Nothing => self,
            Guard::Full(c) => State { cpu: c, ..self },
            Guard::Slim(s) => State { cpu: self.cpu.with_slim(s), ..self },
        }
    }
}

impl State {
    /// A machine as it is at power on.
    pub open spec fn is_fresh(self, ram_bytes: nat, profile: MachineProfile) -> bool {
        &&& self.cpu == Cpu::initial()
        &&& self.mem == Seq::new(ram_bytes, |i: int| 0u8)
        &&& self.dcache == CacheState::fresh(ram_bytes)
        &&& self.profile == profile
        &&& self.port_latch == Seq::new(0x1_0000, |i: int| 0xFFu8)
        &&& self.port_events == Seq::<PortEvent>::empty()
        &&& !self.halted
        &&& self.pending_fault is None
        &&& !self.sys_access
        &&& self.marks.len() == 0
        &&& self.guard == Guard::Nothing
        &&& self.float_request is None
        &&& self.trap_ip == 0
        &&& self.trap is None
        &&& self.log.is_empty()
        &&& self.pending_irq is None
        &&& !self.pic_service
        &&& self.tick_countdown == self.tick_period
        &&& self.ticks == 0
        &&& self.board.devices.is_fresh()
        &&& self.board.disk is None
        &&& self.board.console == Seq::<u8>::empty()
        &&& forall|i: int| 0 <= i < 128 ==> !#[trigger] self.board.video_modes[i]
        &&& self.board.bios_hle
        &&& self.board.lfb is None
    }

    /// Bytes `k` and on of a sequence put into physical memory.
    #[verifier::opaque]
    pub open spec fn stored_from(self, pa: u32, bytes: Seq<u8>, k: nat) -> State
        decreases bytes.len() - k,
    {
        if k >= bytes.len() {
            self
        } else {
            self.with_phys8(pa.wrapping_add(k as u32), bytes[k as int]).stored_from(
                pa,
                bytes,
                k + 1,
            )
        }
    }

    /// Bytes put into physical memory.
    pub open spec fn stored(self, pa: u32, bytes: Seq<u8>) -> State {
        self.stored_from(pa, bytes, 0)
    }
}

proof fn lemma_stored_from(s: State, pa: u32, bytes: Seq<u8>, k: nat)
    requires
        pa + bytes.len() <= 0x1_0000_0000,
        k <= bytes.len(),
    ensures
        ({
            let t = s.stored_from(pa, bytes, k);
            &&& t.mem.len() == s.mem.len()
            &&& forall|i: int|
                0 <= i < s.mem.len() ==> #[trigger] t.mem[i] == (if pa + k <= i < pa
                    + bytes.len() {
                    bytes[i - pa]
                } else {
                    s.mem[i]
                })
            &&& t == (State { mem: t.mem, dcache: t.dcache, ..s })
        }),
    decreases bytes.len() - k,
{
    reveal_with_fuel(State::stored_from, 2);
    reveal(State::with_phys8);
    if k < bytes.len() {
        let u = s.with_phys8(pa.wrapping_add(k as u32), bytes[k as int]);
        lemma_stored_from(u, pa, bytes, k + 1);
    }
}

/// Bytes that were put into memory are there, as far as there is memory; the rest of
/// memory and all else but the decode cache stay as they were.
pub proof fn law_stored(s: State, pa: u32, bytes: Seq<u8>)
    requires
        pa + bytes.len() <= 0x1_0000_0000,
    ensures
        ({
            let t = s.stored(pa, bytes);
            &&& t.mem.len() == s.mem.len()
            &&& forall|i: int|
                0 <= i < s.mem.len() ==> #[trigger] t.mem[i] == (if pa <= i < pa + bytes.len() {
                    bytes[i - pa]
                } else {
                    s.mem[i]
                })
            &&& t == (State { mem: t.mem, dcache: t.dcache, ..s })
        }),
{
    lemma_stored_from(s, pa, bytes, 0);
}

impl Machine {
    /// A machine with so much memory, as it is at power on.
    pub fn new(ram_bytes: usize, profile: MachineProfile, tick_period: u32) -> (r: Machine)
        requires
            ram_bytes <= 0x1_0000_0000,
        ensures
            r@.is_fresh(ram_bytes as nat, profile),
            r@.tick_period == tick_period,
    {
        let mem: Vec<u8> = vec![0u8; ram_bytes];
        let port_latch: Vec<u8> = vec![0xFFu8; 0x1_0000];
        assert(mem@ == Seq::new(ram_bytes as nat, |i: int| 0u8));
        assert(port_latch@ == Seq::new(0x1_0000, |i: int| 0xFFu8));
        Machine {
            cpu: Cpu::new(),
            mem,
            dcache: DecodeCache::new(ram_bytes),
            profile,
            port_latch,
            port_events: Vec::new(),
            halted: false,
            pending_fault: None,
            sys_access: false,
            marks: Vec::new(),
            guard: Guard::Nothing,
            float_request: None,
            trap_ip: 0,
            trap: None,
            log: Log {
                first_fault: None,
                int_counts: [0; 256],
                int_first: [(0, 0); 256],
                int_recent: Vec::new(),
                prefixed_seen: [false; 256],
            },
            pending_irq: None,
            pic_service: false,
            tick_countdown: tick_period,
            tick_period,
            ticks: 0,
            board: Board {
                devices: Devices::new(),
                disk: None,
                console: Vec::new(),
                video_modes: [false; 128],
                bios_hle: true,
                lfb: None,
            },
        }
    }

    /// Puts bytes into physical memory.
    pub fn store(&mut self, pa: u32, bytes: &[u8])
        ensures
            final(self)@ == old(self)@.stored(pa, bytes@),
    {
        let mut k: usize = 0;
        while k < bytes.len()
            invariant
                k <= bytes.len(),
                self@.stored_from(pa, bytes@, k as nat) == old(self)@.stored(pa, bytes@),
            decreases bytes.len() - k,
        {
            proof {
                reveal_with_fuel(State::stored_from, 2);
            }
            self.write_phys8(pa.wrapping_add(k as u32), bytes[k]);
            k = k + 1;
        }
        proof {
            reveal_with_fuel(State::stored_from, 2);
        }
    }

    #[verifier::allow_in_spec]
    pub fn read_phys8(&self, pa: u32) -> u8
        returns
            self@.phys8(pa),
    {
        proof {
            reveal(State::phys8);
        }
        if (pa as usize) < self.mem.len() {
            self.mem[pa as usize]
        } else {
            0xFF
        }
    }

    #[verifier::allow_in_spec]
    pub fn read_phys32(&self, pa: u32) -> u32
        returns
            self@.phys32(pa),
    {
        proof {
            reveal(State::phys32);
        }
        le32(
            le16(self.read_phys8(pa), self.read_phys8(pa.wrapping_add(1))),
            le16(self.read_phys8(pa.wrapping_add(2)), self.read_phys8(pa.wrapping_add(3))),
        )
    }

    pub fn write_phys8(&mut self, pa: u32, v: u8)
        ensures
            final(self)@ == old(self)@.with_phys8(pa, v),
    {
        proof {
            reveal(State::with_phys8);
        }
        if (pa as usize) < self.mem.len() {
            self.mem[pa as usize] = v;
            self.dcache.note_write(pa);
        }
    }

    #[verifier::allow_in_spec]
    pub fn translate_for(&self, lin: u32, write: bool) -> Result<u32, Fault>
        returns
            self@.translate(lin, write),
    {
        proof {
            reveal(State::translate);
        }
        if !self.cpu.pg() {
            return Ok(lin);
        }
        let user = self.cpu.cpl() == 3 && !self.sys_access;
        let miss: u32 = (if write {
            2
        } else {
            0
        }) | (if user {
            4
        } else {
            0
        });
        let pde: u32 = self.read_phys32((self.cpu.cr3 & 0xFFFF_F000) | ((lin >> 22) << 2));
        let pte: u32 = self.read_phys32((pde & 0xFFFF_F000) | (((lin >> 12) & 0x3FF) << 2));
        let both: u32 = pde & pte;
        let guarded = user || self.cpu.cr0 & 0x1_0000 != 0;
        if pde & 1 == 0 || pte & 1 == 0 {
            Err(Fault { vector: 14, addr: lin, code: miss })
        } else if user && both & 4 == 0 || write && guarded && both & 2 == 0 {
            Err(Fault { vector: 14, addr: lin, code: miss | 1 })
        } else {
            Ok((pte & 0xFFFF_F000) | (lin & 0xFFF))
        }
    }

    /// Remembers a fault; of several in one instruction the first counts.
    pub fn note_fault(&mut self, f: Fault)
        ensures
            final(self)@ == old(self)@.with_fault(f),
    {
        if self.pending_fault.is_none() {
            self.pending_fault = Some(f);
        }
    }

    pub fn read8(&mut self, lin: u32) -> (v: u8)
        ensures
            (final(self)@, v) == old(self)@.read8(lin),
    {
        proof {
            reveal(State::read8);
        }
        match self.translate_for(lin, false) {
            Ok(pa) => {
                let v: u8 = self.read_phys8(pa);
                self.walk(lin, false);
                v
            },
            Err(f) => {
                self.note_fault(f);
                0
            },
        }
    }

    pub fn read16(&mut self, lin: u32) -> (v: u16)
        ensures
            (final(self)@, v) == old(self)@.read16(lin),
    {
        proof {
            reveal(State::read16);
        }
        let a: u8 = self.read8(lin);
        let b: u8 = self.read8(lin.wrapping_add(1));
        le16(a, b)
    }

    pub fn read32(&mut self, lin: u32) -> (v: u32)
        ensures
            (final(self)@, v) == old(self)@.read32(lin),
    {
        proof {
            reveal(State::read32);
        }
        let lo: u16 = self.read16(lin);
        let hi: u16 = self.read16(lin.wrapping_add(2));
        le32(lo, hi)
    }

    pub fn write8(&mut self, lin: u32, v: u8)
        ensures
            final(self)@ == old(self)@.write8(lin, v),
    {
        proof {
            reveal(State::write8);
        }
        match self.translate_for(lin, true) {
            Ok(pa) => {
                self.walk(lin, true);
                self.write_phys8(pa, v);
            },
            Err(f) => self.note_fault(f),
        }
    }

    pub fn write16(&mut self, lin: u32, v: u16)
        ensures
            final(self)@ == old(self)@.write16(lin, v),
    {
        proof {
            reveal(State::write16);
        }
        match (self.translate_for(lin, true), self.translate_for(lin.wrapping_add(1), true)) {
            (Err(f), _) => self.note_fault(f),
            (_, Err(f)) => self.note_fault(f),
            (Ok(p), Ok(q)) => {
                self.walk(lin, true);
                self.walk(lin.wrapping_add(1), true);
                self.write_phys8(p, byte_of(v as u32, 0));
                self.write_phys8(q, byte_of(v as u32, 1));
            },
        }
    }

    pub fn write32(&mut self, lin: u32, v: u32)
        ensures
            final(self)@ == old(self)@.write32(lin, v),
    {
        proof {
            reveal(State::write32);
        }
        let t0 = self.translate_for(lin, true);
        let t1 = self.translate_for(lin.wrapping_add(1), true);
        let t2 = self.translate_for(lin.wrapping_add(2), true);
        let t3 = self.translate_for(lin.wrapping_add(3), true);
        match (t0, t1, t2, t3) {
            (Err(f), _, _, _) => self.note_fault(f),
            (_, Err(f), _, _) => self.note_fault(f),
            (_, _, Err(f), _) => self.note_fault(f),
            (_, _, _, Err(f)) => self.note_fault(f),
            (Ok(p0), Ok(p1), Ok(p2), Ok(p3)) => {
                self.walk(lin, true);
                self.walk(lin.wrapping_add(3), true);
                self.write_phys8(p0, byte_of(v, 0));
                self.write_phys8(p1, byte_of(v, 1));
                self.write_phys8(p2, byte_of(v, 2));
                self.write_phys8(p3, byte_of(v, 3));
            },
        }
    }

    fn latched(&self, port: u16) -> (v: u8)
        ensures
            v == self@.latch(port),
    {
        if (port as usize) < self.port_latch.len() {
            self.port_latch[port as usize]
        } else {
            0xFF
        }
    }

    fn port_in(&mut self, port: u16, bytes: u8) -> (v: u32)
        ensures
            (final(self)@, v) == old(self)@.io_read(port, bytes),
    {
        let a: u8 = self.latched(port);
        let b: u8 = self.latched(port.wrapping_add(1));
        let c: u8 = self.latched(port.wrapping_add(2));
        let d: u8 = self.latched(port.wrapping_add(3));
        self.port_events.push(PortEvent::Read { port, bytes });
        if bytes == 1 {
            a as u32
        } else if bytes == 2 {
            le16(a, b) as u32
        } else {
            le32(le16(a, b), le16(c, d))
        }
    }

    pub fn io_read8(&mut self, port: u16) -> (v: u8)
        ensures
            (final(self)@, v as u32) == old(self)@.io_read(port, 1),
    {
        self.port_in(port, 1) as u8
    }

    pub fn io_read16(&mut self, port: u16) -> (v: u16)
        ensures
            (final(self)@, v as u32) == old(self)@.io_read(port, 2),
    {
        self.port_in(port, 2) as u16
    }

    pub fn io_read32(&mut self, port: u16) -> (v: u32)
        ensures
            (final(self)@, v) == old(self)@.io_read(port, 4),
    {
        self.port_in(port, 4)
    }

    pub fn io_write(&mut self, port: u16, bytes: u8, value: u32)
        ensures
            final(self)@ == old(self)@.io_write(port, bytes, value),
    {
        self.port_events.push(PortEvent::Write { port, bytes, value });
    }

    pub fn io_write8(&mut self, port: u16, v: u8)
        ensures
            final(self)@ == old(self)@.io_write(port, 1, v as u32),
    {
        self.io_write(port, 1, v as u32);
    }

    /// Stops the machine for an instruction that it does not have.
    pub fn trap(&mut self, reason: TrapReason)
        ensures
            final(self)@ == old(self)@.trapped(reason),
    {
        if self.trap.is_none() {
            self.trap = Some(Trap { reason, cs: self.cpu.sregs[CS], ip: self.trap_ip });
        }
    }

    pub fn guard_save(&mut self)
        ensures
            final(self)@ == old(self)@.guarded(),
    {
        self.guard = Guard::Full(self.cpu);
    }

    pub fn guard_save_slim_at(&mut self, ip: u32)
        ensures
            final(self)@ == old(self)@.guarded_slim(ip),
    {
        let c: Cpu = self.cpu;
        let s = SlimSave {
            regs: c.regs,
            ip,
            flags: c.flags,
            cc_op: c.cc_op,
            cc_w: c.cc_w,
            cc_a: c.cc_a,
            cc_b: c.cc_b,
            cc_cin: c.cc_cin,
            cc_r: c.cc_r,
        };
        self.guard = Guard::Slim(s);
    }

    pub fn guard_save_slim(&mut self)
        ensures
            final(self)@ == old(self)@.guarded_slim(old(self)@.cpu.ip),
    {
        let ip: u32 = self.cpu.ip;
        self.guard_save_slim_at(ip);
    }

    /// Puts the processor back to where the guard was taken.
    pub fn guard_restore(&mut self)
        ensures
            final(self)@ == old(self)@.taken_back(),
    {
        match self.guard {
            Guard::Nothing => {},
            Guard::Full(c) => {
                self.cpu = c;
            },
            Guard::Slim(s) => {
                self.cpu.restore_slim(&s);
            },
        }
    }
}

/// A read changes nothing but the note of a fault and the marks of page walks.
pub proof fn lemma_read_keeps(s: State, lin: u32)
    ensures
        s.read8(lin).0 == (State {
            pending_fault: s.read8(lin).0.pending_fault,
            marks: s.read8(lin).0.marks,
            ..s
        }),
        s.read16(lin).0 == (State {
            pending_fault: s.read16(lin).0.pending_fault,
            marks: s.read16(lin).0.marks,
            ..s
        }),
        s.read32(lin).0 == (State {
            pending_fault: s.read32(lin).0.pending_fault,
            marks: s.read32(lin).0.marks,
            ..s
        }),
{
    reveal(State::read8);
    reveal(State::read16);
    reveal(State::read32);
}

/// A write changes no more than memory, the cache of decoded code, the note of a
/// fault and the marks of page walks.
pub proof fn lemma_write_keeps(s: State, lin: u32, v: u32)
    ensures
        s.write8(lin, v as u8).cpu == s.cpu,
        s.write16(lin, v as u16).cpu == s.cpu,
        s.write32(lin, v).cpu == s.cpu,
        s.write8(lin, v as u8).mem.len() == s.mem.len(),
        s.write16(lin, v as u16).mem.len() == s.mem.len(),
        s.write32(lin, v).mem.len() == s.mem.len(),
{
    reveal(State::with_phys8);
    reveal(State::write8);
    reveal(State::write16);
    reveal(State::write32);
}

pub proof fn lemma_entry_places(c: u32, l: u32)
    by (bit_vector)
    ensures
        ((c & 0xFFFF_F000) | ((l >> 22) << 2)) % 4 == 0,
        ((c & 0xFFFF_F000) | (((l >> 12) & 0x3FF) << 2)) % 4 == 0,
{
}

/// A byte that is no part of the table entries of an address leaves its translation
/// alone.
pub proof fn lemma_apart(s: State, lin: u32, pa: u32, v: u8)
    requires
        s.apart(lin, pa),
    ensures
        forall|w: bool|
            #[trigger] s.with_phys8(pa, v).translate(lin, w) == s.translate(lin, w),
        forall|q: u32| #[trigger] s.with_phys8(pa, v).apart(lin, q) == s.apart(lin, q),
{
    reveal(State::translate);
    reveal(State::with_phys8);
    let t = s.with_phys8(pa, v);
    if s.cpu.pg() {
        lemma_entry_places(s.cpu.cr3, lin);
        lemma_entry_places(s.phys32(s.pde_at(lin)), lin);
        lemma_entry_kept(s, s.pde_at(lin), pa, v);
        lemma_entry_kept(s, s.pte_at(lin), pa, v);
    }
}

/// A table entry that a write does not touch.
pub proof fn lemma_entry_kept(s: State, at: u32, pa: u32, v: u8)
    requires
        at % 4 == 0,
        !(at <= pa < at + 4),
    ensures
        s.with_phys8(pa, v).phys32(at) == s.phys32(at),
{
    reveal(State::phys32);
    reveal(State::phys8);
    reveal(State::with_phys8);
}

/// What can be written can be read, and a translation keeps the place in the page.
pub proof fn lemma_place(s: State, lin: u32)
    requires
        s.translate(lin, true) is Ok,
    ensures
        s.translate(lin, false) == Ok::<u32, Fault>(s.place(lin)),
        s.place(lin) % 0x1000 == lin % 0x1000,
{
    reveal(State::translate);
    let pte = s.phys32(s.pte_at(lin));
    crate::cpu::dcache::agreement::fetch::lemma_low_bits(lin, pte);
}

/// The marks of page walks do not matter to where a write goes.
proof fn lemma_marks_aside(s: State, t: State, lin: u32)
    requires
        t == (State { marks: t.marks, ..s }),
    ensures
        forall|w: bool| #[trigger] t.translate(lin, w) == s.translate(lin, w),
        t.place(lin) == s.place(lin),
        forall|q: u32| #[trigger] t.apart(lin, q) == s.apart(lin, q),
{
    reveal(State::translate);
    reveal(State::phys32);
    reveal(State::phys8);
}

/// A byte that was written to memory is read back, and every other byte stays, with or
/// without paging, where the byte is none of the page tables in use.
pub proof fn law_byte_read_back(s: State, a: u32, b: u32, v: u8)
    requires
        s.writable(a, 1),
    ensures
        s.write8(a, v).read8(a) == (s.write8(a, v), v),
        s.apart(b, s.place(a)) && s.translate(b, false) != Ok::<u32, Fault>(s.place(a))
            ==> s.write8(a, v).read8(b).1 == s.read8(b).1,
{
    reveal(State::writable);
    reveal(State::phys8);
    reveal(State::with_phys8);
    reveal(State::read8);
    reveal(State::write8);
    assert(a.wrapping_add(0) == a);
    assert(s.lands(a.wrapping_add(0)));
    assert(s.apart(a.wrapping_add(0), s.place(a.wrapping_add(0))));
    let w = s.walked(a, true);
    lemma_marks_aside(s, w, a);
    lemma_marks_aside(s, w, b);
    crate::walk::lemma_walk_grows(s, a, true);
    lemma_place(s, a);
    lemma_apart(w, a, s.place(a), v);
    crate::walk::lemma_walk_apart(w, a, s.place(a), v, false);
    if s.apart(b, s.place(a)) {
        lemma_apart(w, b, s.place(a), v);
    }
}

/// The same of a word.
pub proof fn law_word_read_back(s: State, a: u32, v: u16)
    requires
        s.writable(a, 2),
    ensures
        s.write16(a, v).read16(a) == (s.write16(a, v), v),
{
    reveal(State::writable);
    let b = a.wrapping_add(1);
    assert(a.wrapping_add(0) == a);
    assert(s.lands(a.wrapping_add(0)) && s.lands(a.wrapping_add(1)));
    assert(s.apart(a.wrapping_add(0), s.place(a.wrapping_add(0))));
    assert(s.apart(a.wrapping_add(0), s.place(a.wrapping_add(1))));
    assert(s.apart(a.wrapping_add(1), s.place(a.wrapping_add(0))));
    assert(s.apart(a.wrapping_add(1), s.place(a.wrapping_add(1))));
    let (p, q) = (s.place(a), s.place(b));
    lemma_place(s, a);
    lemma_place(s, b);
    let w = s.walked(a, true).walked(b, true);
    lemma_walked_ends(s, a, b);
    let (x, y) = (byte_of(v as u32, 0), byte_of(v as u32, 1));
    let t = w.with_phys8(p, x);
    lemma_apart(w, a, p, x);
    lemma_apart(w, b, p, x);
    lemma_apart(t, a, q, y);
    lemma_apart(t, b, q, y);
    crate::walk::lemma_walk_apart(w, a, p, x, false);
    crate::walk::lemma_walk_apart(w, b, p, x, false);
    crate::walk::lemma_walk_apart(t, a, q, y, false);
    crate::walk::lemma_walk_apart(t, b, q, y, false);
    let u = t.with_phys8(q, y);
    assert(s.write16(a, v) == u) by {
        reveal(State::write16);
    }
    assert(u.phys8(p) == x && u.phys8(q) == y) by {
        reveal(State::phys8);
        reveal(State::with_phys8);
    }
    assert(u.read8(a) == (u, x) && u.read8(b) == (u, y)) by {
        reveal(State::read8);
    }
    reveal(State::read16);
    law_bytes_of_word(v as u32);
}

/// After the walks of both ends of a write, both are raised.
proof fn lemma_walked_ends(s: State, a: u32, b: u32)
    ensures
        ({
            let w = s.walked(a, true).walked(b, true);
            &&& w == (State { marks: w.marks, ..s })
            &&& w.quiet(a, false)
            &&& w.quiet(b, false)
            &&& forall|l: u32, f: bool| #[trigger] w.translate(l, f) == s.translate(l, f)
            &&& forall|l: u32, q: u32| #[trigger] w.apart(l, q) == s.apart(l, q)
        }),
{
    let t = s.walked(a, true);
    let w = t.walked(b, true);
    crate::walk::lemma_walk_grows(s, a, true);
    crate::walk::lemma_walk_grows(t, b, true);
    crate::walk::lemma_quiet_stays(t, w, a, false);
    assert forall|l: u32, f: bool| #[trigger] w.translate(l, f) == s.translate(l, f) by {
        lemma_marks_aside(s, w, l);
    }
    assert forall|l: u32, q: u32| #[trigger] w.apart(l, q) == s.apart(l, q) by {
        lemma_marks_aside(s, w, l);
    }
}

/// A byte of a doubleword is raised when both ends are.
proof fn lemma_inner_byte(w: State, a: u32, k: u32)
    requires
        w.quiet(a, false),
        w.quiet(a.wrapping_add(3), false),
        k < 4,
    ensures
        w.quiet(a.wrapping_add(k), false),
{
    if a % 0x1000 + k < 0x1000 {
        crate::walk::lemma_walk_ahead(w, a, k, false);
    } else {
        crate::walk::lemma_walk_ahead(w, a.wrapping_add(k), (3 - k) as u32, false);
        assert(a.wrapping_add(k) + (3 - k) == a.wrapping_add(3));
    }
}

/// The places of the bytes of a doubleword differ, and each stays where it is while
/// one of them is written.
proof fn lemma_byte_of_doubleword(s: State, t: State, a: u32, k: u32, j: u32, v: u8)
    requires
        s.writable(a, 4),
        k < 4,
        j < 4,
        t.mem.len() == s.mem.len(),
        t.translate(a.wrapping_add(k), false) == s.translate(a.wrapping_add(k), false),
        t.quiet(a.wrapping_add(k), false),
        forall|q: u32|
            #[trigger] t.apart(a.wrapping_add(k), q) == s.apart(a.wrapping_add(k), q),
    ensures
        ({
            let l = a.wrapping_add(k);
            let u = t.with_phys8(s.place(a.wrapping_add(j)), v);
            &&& u.mem.len() == s.mem.len()
            &&& u.translate(l, false) == s.translate(l, false)
            &&& s.translate(l, false) == Ok::<u32, Fault>(s.place(l))
            &&& u.quiet(l, false)
            &&& forall|q: u32| #[trigger] u.apart(l, q) == s.apart(l, q)
            &&& u.phys8(s.place(l)) == if j == k {
                v
            } else {
                t.phys8(s.place(l))
            }
        }),
{
    reveal(State::writable);
    let l = a.wrapping_add(k);
    let h = a.wrapping_add(j);
    assert(s.lands(a.wrapping_add(k)) && s.lands(a.wrapping_add(j)));
    assert(s.apart(a.wrapping_add(k), s.place(a.wrapping_add(j))));
    lemma_place(s, l);
    lemma_place(s, h);
    lemma_apart(t, l, s.place(h), v);
    crate::walk::lemma_walk_apart(t, l, s.place(h), v, false);
    assert(j != k ==> l % 0x1000 != h % 0x1000);
    reveal(State::phys8);
    reveal(State::with_phys8);
}

/// The same of a doubleword.
pub proof fn law_doubleword_read_back(s: State, a: u32, v: u32)
    requires
        s.writable(a, 4),
    ensures
        s.write32(a, v).read32(a) == (s.write32(a, v), v),
{
    let b = a.wrapping_add(1);
    let c = a.wrapping_add(2);
    let d = a.wrapping_add(3);
    let w = s.walked(a, true).walked(d, true);
    lemma_walked_ends(s, a, d);
    let s0 = w.with_phys8(s.place(a), byte_of(v, 0));
    let s1 = s0.with_phys8(s.place(b), byte_of(v, 1));
    let s2 = s1.with_phys8(s.place(c), byte_of(v, 2));
    let s3 = s2.with_phys8(s.place(d), byte_of(v, 3));
    assert(a.wrapping_add(0) == a);
    assert forall|k: u32| k < 4 implies {
        let l = #[trigger] a.wrapping_add(k);
        &&& s.lands(l)
        &&& s3.read8(l) == (s3, byte_of(v, k))
    } by {
        let l = a.wrapping_add(k);
        lemma_inner_byte(w, a, k);
        lemma_byte_of_doubleword(s, w, a, k, 0, byte_of(v, 0));
        lemma_byte_of_doubleword(s, s0, a, k, 1, byte_of(v, 1));
        lemma_byte_of_doubleword(s, s1, a, k, 2, byte_of(v, 2));
        lemma_byte_of_doubleword(s, s2, a, k, 3, byte_of(v, 3));
        reveal(State::read8);
        reveal(State::writable);
        assert(s.lands(a.wrapping_add(k)));
    }
    assert(s.lands(a.wrapping_add(0)) && s.lands(a.wrapping_add(1)) && s.lands(a.wrapping_add(2))
        && s.lands(a.wrapping_add(3)));
    assert(s.write32(a, v) == s3) by {
        reveal(State::write32);
    }
    assert(s3.read32(a) == (s3, v)) by {
        reveal(State::read16);
        reveal(State::read32);
        assert(b.wrapping_add(1) == c && c.wrapping_add(1) == d);
        law_bytes_of_word(v);
    }
}

/// Without paging all of memory is writable.
pub proof fn law_writable_memory(s: State, a: u32, n: u32)
    requires
        !s.cpu.pg(),
        a + n <= s.mem.len(),
        a + n <= 0x1_0000_0000,
    ensures
        s.writable(a, n),
        forall|i: u32| i < n ==> #[trigger] s.place(a.wrapping_add(i)) == a + i,
{
    reveal(State::writable);
    reveal(State::translate);
}

/// A write that faults changes no memory: only the first fault is noted.
pub proof fn law_faulting_write_changes_nothing(s: State, a: u32, v: u32)
    requires
        s.translate(a, true) is Err || s.translate(a.wrapping_add(3), true) is Err,
    ensures
        s.write32(a, v) == (State { pending_fault: s.write32(a, v).pending_fault, ..s }),
        s.write32(a, v).pending_fault is Some,
{
    reveal(State::write32);
}

} // verus!
