use vstd::prelude::*;

verus! {

/// A device that is read in sectors of 512 bytes.
pub trait BlockDevice {
    /// Reads the sector with the number `lba` into `buf`, and returns whether
    /// the device could read it.
    fn read_sector(&mut self, lba: u32, buf: &mut [u8; 512]) -> bool;
}

/// The first disk on the primary channel.
pub struct AtaDevice;

impl AtaDevice {
    /// The handle of the disk.
    pub fn new() -> (d: Self) {
        AtaDevice
    }
}

/// The bytes of a sector that the disk delivered as 256 words, the low byte
/// of each word first.
pub open spec fn sector_bytes(words: Seq<u16>) -> Seq<u8> {
    Seq::new(512, |i: int| if i % 2 == 0 { (words[i / 2] % 256) as u8 } else { (words[i / 2] / 256) as u8 })
}

/// Turns the 256 words that the disk delivered into the 512 bytes of the
/// sector, the low byte of each word first.
pub fn words_to_bytes(words: &[u16; 256], buf: &mut [u8; 512])
    ensures
        final(buf)@ == sector_bytes(words@),
{
    let mut i: usize = 0;
    while i < 256
        invariant
            i <= 256,
            forall|j: int| 0 <= j < 2 * i ==> buf@[j] == sector_bytes(words@)[j],
        decreases 256 - i,
    {
        let w = words[i];
        buf[i * 2] = (w % 256) as u8;
        buf[i * 2 + 1] = (w / 256) as u8;
        i += 1;
    }
    proof {
        assert(buf@ =~= sector_bytes(words@));
    }
}

} // verus!
