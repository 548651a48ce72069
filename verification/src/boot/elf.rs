//! 32-bit executables: where the parts of a kernel go.

use vstd::prelude::*;
use crate::boot::bzimage::{read16, read32};
use crate::boot::BootError;

verus! {

/// A part of an executable: where it goes, where it is in the file, how much of it
/// the file has and how large it is. What the file does not have is zero.
#[derive(Clone, Copy, Debug, PartialEq, Eq, Structural)]
pub struct Segment {
    pub paddr: u32,
    pub offset: u32,
    pub filesz: u32,
    pub memsz: u32,
}

/// An executable: where it starts and its parts.
pub struct Vmlinux {
    pub entry: u32,
    pub segments: Vec<Segment>,
}

/// Whether a file begins with the mark of an executable.
pub open spec fn has_mark(s: Seq<u8>) -> bool {
    s.len() >= 4 && s[0] == 0x7F && s[1] == 0x45 && s[2] == 0x4C && s[3] == 0x46
}

/// A 32-bit executable of this kind of processor, with a whole header.
pub open spec fn is_kernel(s: Seq<u8>) -> bool {
    has_mark(s) && s.len() >= 0x34 && s[4] == 1 && s[5] == 1 && crate::boot::bzimage::word_at(
        s,
        0x12,
    ) == 3
}

/// The program header at a place.
pub open spec fn segment_at(s: Seq<u8>, o: int) -> Segment {
    Segment {
        paddr: crate::boot::bzimage::dword_at(s, o + 12),
        offset: crate::boot::bzimage::dword_at(s, o + 4),
        filesz: crate::boot::bzimage::dword_at(s, o + 16),
        memsz: crate::boot::bzimage::dword_at(s, o + 20),
    }
}

/// The parts that go to memory among the first `n` program headers; nothing where a
/// header or a part is not wholly in the file.
pub open spec fn segments_upto(s: Seq<u8>, start: int, size: int, n: nat) -> Option<Seq<Segment>>
    decreases n,
{
    if n == 0 {
        Some(Seq::empty())
    } else {
        let o = start + size * (n - 1);
        match segments_upto(s, start, size, (n - 1) as nat) {
            None => None,
            Some(got) => if o + 32 > s.len() {
                None
            } else if crate::boot::bzimage::dword_at(s, o) != 1 {
                Some(got)
            } else {
                let g = segment_at(s, o);
                if g.offset + g.filesz > s.len() || g.filesz > g.memsz {
                    None
                } else {
                    Some(got.push(g))
                }
            },
        }
    }
}

/// The parts of a kernel.
pub open spec fn kernel_segments(s: Seq<u8>) -> Option<Seq<Segment>> {
    segments_upto(
        s,
        crate::boot::bzimage::dword_at(s, 0x1C) as int,
        crate::boot::bzimage::word_at(s, 0x2A) as int,
        crate::boot::bzimage::word_at(s, 0x2C) as nat,
    )
}

/// Whether a file is an executable.
pub fn is_elf(image: &[u8]) -> (r: bool)
    ensures
        r == has_mark(image@),
{
    image.len() >= 4 && image[0] == 0x7F && image[1] == 0x45 && image[2] == 0x4C && image[3] == 0x46
}

/// Reads the headers of a kernel.
pub fn parse_vmlinux(image: &[u8]) -> (r: Result<Vmlinux, BootError>)
    ensures
        match r {
            Ok(v) => is_kernel(image@) && v.entry == crate::boot::bzimage::dword_at(image@, 0x18)
                && kernel_segments(image@) == Some(v.segments@),
            Err(e) => if is_kernel(image@) {
                e == BootError::BrokenElf && kernel_segments(image@) is None
            } else {
                e == BootError::NotElf
            },
        },
{
    if !is_elf(image) || image.len() < 0x34 || image[4] != 1 || image[5] != 1 {
        return Err(BootError::NotElf);
    }
    if read16(image, 0x12) != 3 {
        return Err(BootError::NotElf);
    }
    let start: u64 = read32(image, 0x1C) as u64;
    let size: u64 = read16(image, 0x2A) as u64;
    let count: u64 = read16(image, 0x2C) as u64;
    let mut segments: Vec<Segment> = Vec::new();
    let mut i: u64 = 0;
    while i < count
        invariant
            is_kernel(image@),
            i <= count <= 0xFFFF,
            start <= 0xFFFF_FFFF,
            size <= 0xFFFF,
            start == crate::boot::bzimage::dword_at(image@, 0x1C),
            size == crate::boot::bzimage::word_at(image@, 0x2A),
            count == crate::boot::bzimage::word_at(image@, 0x2C),
            segments_upto(image@, start as int, size as int, i as nat) == Some(segments@),
        decreases count - i,
    {
        assert(0 <= size * i <= 0xFFFE_0001) by (nonlinear_arith)
            requires
                0 <= size <= 0xFFFF,
                0 <= i <= 0xFFFF,
        ;
        let o: u64 = start + size * i;
        let whole = o + 32 <= image.len() as u64;
        proof {
            if !whole {
                lemma_none_stays(image@, start as int, size as int, (i + 1) as nat, count as nat);
            }
        }
        if !whole {
            return Err(BootError::BrokenElf);
        }
        let at: usize = o as usize;
        if read32(image, at) == 1 {
            let g = Segment {
                paddr: read32(image, at + 12),
                offset: read32(image, at + 4),
                filesz: read32(image, at + 16),
                memsz: read32(image, at + 20),
            };
            let fits = g.offset as u64 + g.filesz as u64 <= image.len() as u64 && g.filesz
                <= g.memsz;
            proof {
                if !fits {
                    lemma_none_stays(
                        image@,
                        start as int,
                        size as int,
                        (i + 1) as nat,
                        count as nat,
                    );
                }
            }
            if !fits {
                return Err(BootError::BrokenElf);
            }
            segments.push(g);
        }
        i = i + 1;
    }
    Ok(Vmlinux { entry: read32(image, 0x18), segments })
}

/// The parts of a kernel are wholly in the file.
pub proof fn lemma_segments_in_file(s: Seq<u8>, gs: Seq<Segment>, k: int)
    requires
        kernel_segments(s) == Some(gs),
        0 <= k < gs.len(),
    ensures
        gs[k].offset + gs[k].filesz <= s.len(),
        gs[k].filesz <= gs[k].memsz,
{
    lemma_upto_in_file(
        s,
        crate::boot::bzimage::dword_at(s, 0x1C) as int,
        crate::boot::bzimage::word_at(s, 0x2A) as int,
        crate::boot::bzimage::word_at(s, 0x2C) as nat,
        k,
    );
}

proof fn lemma_upto_in_file(s: Seq<u8>, start: int, size: int, n: nat, k: int)
    requires
        segments_upto(s, start, size, n) is Some,
        0 <= k < (segments_upto(s, start, size, n)->0).len(),
    ensures
        ({
            let g = (segments_upto(s, start, size, n)->0)[k];
            g.offset + g.filesz <= s.len() && g.filesz <= g.memsz
        }),
    decreases n,
{
    if n > 0 {
        let before = segments_upto(s, start, size, (n - 1) as nat)->0;
        if k < before.len() {
            lemma_upto_in_file(s, start, size, (n - 1) as nat, k);
        }
    }
}

proof fn lemma_none_stays(s: Seq<u8>, start: int, size: int, k: nat, n: nat)
    requires
        k <= n,
        segments_upto(s, start, size, k) is None,
    ensures
        segments_upto(s, start, size, n) is None,
    decreases n,
{
    if k < n {
        lemma_none_stays(s, start, size, k, (n - 1) as nat);
    }
}

} // verus!
