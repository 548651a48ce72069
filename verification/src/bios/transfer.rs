//! What the disk services do to memory and to the disk.

use vstd::prelude::*;
use crate::disk::DiskState;
use crate::machine::State;

verus! {

pub proof fn lemma_written(s: State, addr: u32, bytes: Seq<u8>, k: nat)
    requires
        !s.cpu.pg(),
        k <= bytes.len(),
        addr + bytes.len() <= s.mem.len(),
        addr + bytes.len() <= 0x1_0000_0000,
    ensures
        ({
            let t = s.bytes_written(addr, bytes, k);
            &&& t.mem.len() == s.mem.len()
            &&& t.cpu == s.cpu
            &&& t.board == s.board
            &&& forall|i: int|
                0 <= i < s.mem.len() ==> #[trigger] t.mem[i] == (if addr + k <= i < addr
                    + bytes.len() {
                    bytes[i - addr]
                } else {
                    s.mem[i]
                })
        }),
    decreases bytes.len() - k,
{
    reveal_with_fuel(State::bytes_written, 2);
    reveal(State::write8);
    reveal(State::with_phys8);
    reveal(State::translate);
    if k < bytes.len() {
        let u = s.write8(addr.wrapping_add(k as u32), bytes[k as int]);
        lemma_written(u, addr, bytes, k + 1);
    }
}

pub proof fn lemma_read(s: State, addr: u32, n: nat, got: Seq<u8>)
    requires
        !s.cpu.pg(),
        got.len() <= n,
        addr + n <= s.mem.len(),
        addr + n <= 0x1_0000_0000,
        got == s.mem.subrange(addr as int, addr + got.len()),
    ensures
        s.bytes_read(addr, n, got) == (s, s.mem.subrange(addr as int, addr + n)),
    decreases n - got.len(),
{
    reveal_with_fuel(State::bytes_read, 2);
    reveal(State::read8);
    reveal(State::phys8);
    reveal(State::translate);
    if got.len() < n {
        let v = s.mem[addr + got.len()];
        assert(got.push(v) =~= s.mem.subrange(addr as int, addr + got.len() + 1));
        lemma_read(s, addr, n, got.push(v));
    }
}

/// Sectors that are read arrive in memory, and nothing else there changes.
pub proof fn law_sectors_arrive(s: State, d: DiskState, lba: int, count: u8, addr: u32)
    requires
        !s.cpu.pg(),
        0 <= lba,
        512 * (lba + count) <= d.image.len(),
        addr + 512 * count <= s.mem.len(),
        addr + 512 * count <= 0x1_0000_0000,
    ensures
        ({
            let t = s.sectors_read(d, lba, count, addr);
            &&& t.mem.len() == s.mem.len()
            &&& forall|i: int|
                0 <= i < s.mem.len() ==> #[trigger] t.mem[i] == (if addr <= i < addr + 512
                    * count {
                    d.image[512 * lba + (i - addr)]
                } else {
                    s.mem[i]
                })
        }),
{
    reveal(State::sectors_read);
    let b = if count == 0 {
        Seq::empty()
    } else {
        d.image.subrange(512 * lba, 512 * (lba + count))
    };
    lemma_written(s, addr, b, 0);
}

/// Sectors that are written are on the disk, and nothing else there or in memory
/// changes.
pub proof fn law_sectors_kept(s: State, d: DiskState, lba: int, count: u8, addr: u32)
    requires
        !s.cpu.pg(),
        0 <= lba,
        512 * (lba + count) <= d.image.len(),
        addr + 512 * count <= s.mem.len(),
        addr + 512 * count <= 0x1_0000_0000,
    ensures
        ({
            let t = s.sectors_written(d, lba, count, addr);
            &&& t.mem == s.mem
            &&& t.board.disk matches Some(e) && e == (DiskState { image: e.image, ..d })
                && e.image.len() == d.image.len() && (forall|i: int|
                0 <= i < d.image.len() ==> #[trigger] e.image[i] == (if 512 * lba <= i < 512 * (lba
                    + count) {
                    s.mem[addr + (i - 512 * lba)]
                } else {
                    d.image[i]
                }))
        }),
{
    reveal(State::sectors_written);
    assert(Seq::<u8>::empty() =~= s.mem.subrange(addr as int, addr as int));
    lemma_read(s, addr, (512 * count) as nat, Seq::empty());
}

/// What was written to the disk is read back, wherever in memory it is put.
pub proof fn law_sectors_read_back(
    s: State,
    d: DiskState,
    lba: int,
    count: u8,
    from: u32,
    to: u32,
)
    requires
        !s.cpu.pg(),
        0 <= lba,
        512 * (lba + count) <= d.image.len(),
        from + 512 * count <= s.mem.len(),
        to + 512 * count <= s.mem.len(),
        s.mem.len() <= 0x1_0000_0000,
    ensures
        ({
            let t = s.sectors_written(d, lba, count, from);
            t.board.disk matches Some(e) && (forall|i: int|
                0 <= i < 512 * count ==> #[trigger] t.sectors_read(e, lba, count, to).mem[to + i]
                    == s.mem[from + i])
        }),
{
    law_sectors_kept(s, d, lba, count, from);
    let t = s.sectors_written(d, lba, count, from);
    let e = t.board.disk->0;
    assert(t.cpu.cr0 == s.cpu.cr0) by {
        reveal(State::sectors_written);
        reveal(crate::cpu::state::Cpu::with_flag);
        assert(Seq::<u8>::empty() =~= s.mem.subrange(from as int, from as int));
        lemma_read(s, from, (512 * count) as nat, Seq::empty());
    }
    law_sectors_arrive(t, e, lba, count, to);
    let u = t.sectors_read(e, lba, count, to);
    assert forall|i: int| 0 <= i < 512 * count implies #[trigger] u.mem[to + i] == s.mem[from
        + i] by {
        assert(u.mem[to + i] == e.image[512 * lba + i]);
        assert(e.image[512 * lba + i] == s.mem[from + i]);
    }
}

} // verus!
