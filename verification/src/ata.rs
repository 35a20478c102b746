use vstd::prelude::*;

verus! {

/// Port of the data register.
pub const ATA_REG_DATA: u16 = 0x1F0;

/// Port of the sector count.
pub const ATA_REG_SECCOUNT0: u16 = 0x1F2;

/// Port of the low byte of the sector number.
pub const ATA_REG_LBA0: u16 = 0x1F3;

/// Port of the middle byte of the sector number.
pub const ATA_REG_LBA1: u16 = 0x1F4;

/// Port of the high byte of the sector number.
pub const ATA_REG_LBA2: u16 = 0x1F5;

/// Port that selects the drive.
pub const ATA_REG_HDDEVSEL: u16 = 0x1F6;

/// Port of the command register, and of the status register when read.
pub const ATA_REG_COMMAND: u16 = 0x1F7;

/// The command that reads sectors.
pub const ATA_READ_SECTORS: u8 = 0x20;

/// What the status of the disk says while a sector is awaited.
#[derive(Clone, Copy, Debug, PartialEq, Eq, Structural)]
pub enum Poll {
    /// The data is ready.
    Ready,
    /// The disk reports an error.
    Failed,
    /// Neither yet: ask again.
    Wait,
}

/// The writes that ask the first disk for the sector `lba`, as pairs of a
/// port and a byte, in order: the drive with bits 24 to 27 of the sector
/// number, a count of one sector, the three low bytes of the sector number,
/// and the command to read.
pub open spec fn read_request(lba: u32) -> Seq<(u16, u8)> {
    seq![
        (ATA_REG_HDDEVSEL, (0xE0 + (lba / 0x100_0000) % 16) as u8),
        (ATA_REG_SECCOUNT0, 1u8),
        (ATA_REG_LBA0, (lba % 0x100) as u8),
        (ATA_REG_LBA1, ((lba / 0x100) % 0x100) as u8),
        (ATA_REG_LBA2, ((lba / 0x1_0000) % 0x100) as u8),
        (ATA_REG_COMMAND, ATA_READ_SECTORS),
    ]
}

/// The writes that ask the first disk for the sector `lba`; see `read_request`.
pub fn read_sector_lba28(lba: u32) -> (writes: Vec<(u16, u8)>)
    ensures
        writes@ == read_request(lba),
{
    let mut writes: Vec<(u16, u8)> = Vec::new();
    writes.push((ATA_REG_HDDEVSEL, (0xE0 + (lba / 0x100_0000) % 16) as u8));
    writes.push((ATA_REG_SECCOUNT0, 1));
    writes.push((ATA_REG_LBA0, (lba % 0x100) as u8));
    writes.push((ATA_REG_LBA1, ((lba / 0x100) % 0x100) as u8));
    writes.push((ATA_REG_LBA2, ((lba / 0x1_0000) % 0x100) as u8));
    writes.push((ATA_REG_COMMAND, ATA_READ_SECTORS));
    proof {
        assert(writes@ =~= read_request(lba));
    }
    writes
}

/// What a status byte says: the data is ready where bit three is set; else
/// the disk has failed where bit zero is set; else neither yet.
pub fn poll(status: u8) -> (p: Poll)
    ensures
        p == if (status / 8) % 2 == 1 {
            Poll::Ready
        } else if status % 2 == 1 {
            Poll::Failed
        } else {
            Poll::Wait
        },
{
    if (status / 8) % 2 == 1 {
        Poll::Ready
    } else if status % 2 == 1 {
        Poll::Failed
    } else {
        Poll::Wait
    }
}

} // verus!
