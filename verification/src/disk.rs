//! A floppy disk: an image and its geometry.

use vstd::prelude::*;

verus! {

pub const SECTOR_SIZE: usize = 512;

pub struct Disk {
    pub image: Vec<u8>,
    pub cylinders: u16,
    pub heads: u8,
    /// Sectors of a track.
    pub sectors: u8,
}

#[verifier::ext_equal]
pub struct DiskState {
    pub image: Seq<u8>,
    pub cylinders: u16,
    pub heads: u8,
    pub sectors: u8,
}

impl View for Disk {
    type V = DiskState;

    open spec fn view(&self) -> DiskState {
        DiskState {
            image: self.image@,
            cylinders: self.cylinders,
            heads: self.heads,
            sectors: self.sectors,
        }
    }
}

/// Cylinders, heads and sectors of a track of a disk of so many bytes.
#[verifier::allow_in_spec]
pub fn geometry(bytes: usize) -> Option<(u16, u8, u8)>
    returns
        (if bytes == 163_840 {
            Some((40u16, 1u8, 8u8))
        } else if bytes == 184_320 {
            Some((40u16, 1u8, 9u8))
        } else if bytes == 327_680 {
            Some((40u16, 2u8, 8u8))
        } else if bytes == 368_640 {
            Some((40u16, 2u8, 9u8))
        } else if bytes == 737_280 {
            Some((80u16, 2u8, 9u8))
        } else if bytes == 1_228_800 {
            Some((80u16, 2u8, 15u8))
        } else if bytes == 1_474_560 {
            Some((80u16, 2u8, 18u8))
        } else if bytes == 2_949_120 {
            Some((80u16, 2u8, 36u8))
        } else {
            None
        }),
{
    if bytes == 163_840 {
        Some((40u16, 1u8, 8u8))
    } else if bytes == 184_320 {
        Some((40u16, 1u8, 9u8))
    } else if bytes == 327_680 {
        Some((40u16, 2u8, 8u8))
    } else if bytes == 368_640 {
        Some((40u16, 2u8, 9u8))
    } else if bytes == 737_280 {
        Some((80u16, 2u8, 9u8))
    } else if bytes == 1_228_800 {
        Some((80u16, 2u8, 15u8))
    } else if bytes == 1_474_560 {
        Some((80u16, 2u8, 18u8))
    } else if bytes == 2_949_120 {
        Some((80u16, 2u8, 36u8))
    } else {
        None
    }
}

impl DiskState {
    /// The sector of a number; there is none beyond the end.
    pub open spec fn sector(self, lba: int) -> Option<Seq<u8>> {
        if 0 <= lba && 512 * lba + 512 <= self.image.len() {
            Some(self.image.subrange(512 * lba, 512 * lba + 512))
        } else {
            None
        }
    }

    /// Sector number of a cylinder, head and sector, sectors counted from one.
    pub open spec fn lba_of(self, cyl: u16, head: u8, sec: u8) -> Option<int> {
        if cyl < self.cylinders && head < self.heads && 1 <= sec <= self.sectors {
            Some((cyl * self.heads + head) * self.sectors + sec - 1)
        } else {
            None
        }
    }
}

/// The address of a sector counts all the sectors before it: two different places
/// on a disk have different numbers.
pub proof fn law_places_differ(d: DiskState, c1: u16, h1: u8, s1: u8, c2: u16, h2: u8, s2: u8)
    requires
        d.lba_of(c1, h1, s1) is Some,
        d.lba_of(c1, h1, s1) == d.lba_of(c2, h2, s2),
    ensures
        c1 == c2 && h1 == h2 && s1 == s2,
{
    let hs = d.heads as int;
    let ss = d.sectors as int;
    let t1 = c1 * hs + h1;
    let t2 = c2 * hs + h2;
    let r1 = s1 - 1;
    let r2 = s2 - 1;
    assert(t1 * ss + r1 == t2 * ss + r2);
    assert(t1 == t2) by (nonlinear_arith)
        requires
            t1 * ss + r1 == t2 * ss + r2,
            0 <= r1 < ss,
            0 <= r2 < ss,
    ;
    assert(c1 == c2) by (nonlinear_arith)
        requires
            c1 * hs + h1 == c2 * hs + h2,
            0 <= h1 < hs,
            0 <= h2 < hs,
    ;
}

impl Disk {
    /// A disk of an image of one of the usual sizes.
    pub fn from_image(image: Vec<u8>) -> (r: Option<Disk>)
        ensures
            match r {
                None => geometry(image@.len() as usize) is None,
                Some(d) => d@.image == image@ && geometry(image@.len() as usize) == Some(
                    (d.cylinders, d.heads, d.sectors),
                ),
            },
    {
        match geometry(image.len()) {
            None => None,
            Some((cylinders, heads, sectors)) => Some(Disk { image, cylinders, heads, sectors }),
        }
    }

    /// Sector number of a cylinder, head and sector.
    pub fn chs_to_lba(&self, cyl: u16, head: u8, sec: u8) -> (r: Option<usize>)
        ensures
            match r {
                None => self@.lba_of(cyl, head, sec) is None,
                Some(n) => self@.lba_of(cyl, head, sec) == Some(n as int) && n < 0x1_0000_0000,
            },
    {
        if cyl < self.cylinders && head < self.heads && 1 <= sec && sec <= self.sectors {
            let c: u64 = cyl as u64;
            let h: u64 = self.heads as u64;
            let s: u64 = self.sectors as u64;
            assert(0 <= c * h <= 0xFEFF01) by (nonlinear_arith)
                requires
                    0 <= c <= 0xFFFF,
                    0 <= h <= 0xFF,
            ;
            let t: u64 = c * h + head as u64;
            assert(0 <= t * s <= 0xFF_0000 * 0xFF) by (nonlinear_arith)
                requires
                    0 <= t <= 0xFF_0000,
                    0 <= s <= 0xFF,
            ;
            Some((t * s + sec as u64 - 1) as usize)
        } else {
            None
        }
    }

    /// Whether there is a sector of a number.
    pub fn has_sector(&self, lba: usize) -> (r: bool)
        requires
            lba < 0x2_0000_0000,
        ensures
            r == (self@.sector(lba as int) is Some),
    {
        512 * lba as u64 + 512 <= self.image.len() as u64
    }
}

} // verus!
