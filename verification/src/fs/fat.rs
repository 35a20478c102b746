use crate::elfloader::{le_u16, le_u32, read_u16, read_u32};
use crate::text::push_char;
use vstd::prelude::*;

verus! {

/// What the first sector of a volume says of its layout.
#[derive(Clone, Copy, Debug, PartialEq, Eq, Structural)]
pub struct Bpb {
    pub bps: u16,
    pub spc: u8,
    pub rsv: u32,
    pub nfats: u8,
    pub fatsz: u32,
    pub root_entries: u32,
    pub total_sectors: u32,
    pub fat_start: u32,
    pub root_dir_sectors: u32,
    pub first_data: u32,
    pub fat_bits: u8,
}

/// Greatest number of names that a listing of the root directory holds.
pub const MAX_NAMES: usize = 128;

/// Number of sectors of the root directory that are read.
pub const ROOT_SECTORS: usize = 32;

/// The layout that a boot sector describes: `None` without the signature at
/// its end, with sectors of no bytes, or where the first data sector lies
/// beyond what 32 bits count.
pub open spec fn bpb_of(b: Seq<u8>) -> Option<Bpb> {
    let bps = le_u16(b, 11);
    let rsv = le_u16(b, 14);
    let nfats = b[16] as int;
    let root_entries = le_u16(b, 17);
    let total16 = le_u16(b, 19);
    let fatsz16 = le_u16(b, 22);
    let fatsz = if fatsz16 != 0 { fatsz16 } else { le_u32(b, 36) };
    let root_dir_sectors = if bps > 0 { (root_entries * 32 + (bps - 1)) / bps } else { 0 };
    let first_data = rsv + nfats * fatsz + root_dir_sectors;
    if b[510] != 0x55 || b[511] != 0xAA || bps == 0 || first_data > u32::MAX {
        None
    } else {
        Some(
            Bpb {
                bps: bps as u16,
                spc: b[13],
                rsv: rsv as u32,
                nfats: b[16],
                fatsz: fatsz as u32,
                root_entries: root_entries as u32,
                total_sectors: (if total16 != 0 { total16 } else { le_u32(b, 32) }) as u32,
                fat_start: rsv as u32,
                root_dir_sectors: root_dir_sectors as u32,
                first_data: first_data as u32,
                fat_bits: if fatsz16 != 0 { 16 } else { 32 },
            },
        )
    }
}

/// Reads the layout of a volume from its first sector; see `bpb_of`.
pub fn read_bpb(buf: &[u8; 512]) -> (r: Option<Bpb>)
    ensures
        r == bpb_of(buf@),
{
    if buf[510] != 0x55 || buf[511] != 0xAA {
        return None;
    }
    let sector: &[u8] = buf.as_slice();
    let bps = read_u16(sector, 11);
    let spc = buf[13];
    let rsv = read_u16(sector, 14) as u32;
    let nfats = buf[16];
    let root_entries = read_u16(sector, 17) as u32;
    let total16 = read_u16(sector, 19) as u32;
    let total = if total16 != 0 { total16 } else { read_u32(sector, 32) };
    let fatsz16 = read_u16(sector, 22) as u32;
    let fatsz = if fatsz16 != 0 { fatsz16 } else { read_u32(sector, 36) };
    if bps == 0 {
        return None;
    }
    let root_dir_sectors = (root_entries * 32 + (bps as u32 - 1)) / (bps as u32);
    proof {
        assert(0 <= (nfats as int) * (fatsz as int) <= 255 * 0xFFFF_FFFF) by (nonlinear_arith)
            requires
                0 <= nfats <= 255,
                0 <= fatsz <= 0xFFFF_FFFF,
        ;
    }
    let first: u64 = rsv as u64 + (nfats as u64) * (fatsz as u64) + root_dir_sectors as u64;
    if first > u32::MAX as u64 {
        return None;
    }
    Some(
        Bpb {
            bps,
            spc,
            rsv,
            nfats,
            fatsz,
            root_entries,
            total_sectors: total,
            fat_start: rsv,
            root_dir_sectors,
            first_data: first as u32,
            fat_bits: if fatsz16 != 0 { 16 } else { 32 },
        },
    )
}

/// The sector where the root directory begins: after the reserved sectors
/// and the file allocation tables.
pub fn root_dir_lba(bpb: &Bpb) -> (lba: Option<u32>)
    ensures
        lba == if bpb.rsv + bpb.nfats * bpb.fatsz <= u32::MAX {
            Some((bpb.rsv + bpb.nfats * bpb.fatsz) as u32)
        } else {
            None
        },
{
    proof {
        assert(0 <= (bpb.nfats as int) * (bpb.fatsz as int) <= 255 * 0xFFFF_FFFF) by (nonlinear_arith)
            requires
                0 <= bpb.nfats <= 255,
                0 <= bpb.fatsz <= 0xFFFF_FFFF,
        ;
    }
    let v: u64 = bpb.rsv as u64 + (bpb.nfats as u64) * (bpb.fatsz as u64);
    if v <= u32::MAX as u64 {
        Some(v as u32)
    } else {
        None
    }
}

/// The first `n` bytes of `part` as characters, blanks left out.
pub open spec fn unpadded(part: Seq<u8>, n: nat) -> Seq<char>
    decreases n,
{
    if n == 0 {
        Seq::empty()
    } else {
        let before = unpadded(part, (n - 1) as nat);
        if part[n - 1] == 0x20 {
            before
        } else {
            before.push(part[n - 1] as char)
        }
    }
}

/// The name of the directory entry at `at`: the eight bytes of its base
/// without blanks, and, where the extension does not begin with a blank, a
/// dot and the three bytes of the extension without blanks.
pub open spec fn entry_name(b: Seq<u8>, at: int) -> Seq<char> {
    let base = unpadded(b.subrange(at, at + 8), 8);
    if b[at + 8] != 0x20 {
        base + seq!['.'] + unpadded(b.subrange(at + 8, at + 11), 3)
    } else {
        base
    }
}

/// True for a directory entry that names a file: not deleted, and no part
/// of a long name.
pub open spec fn entry_listed(b: Seq<u8>, at: int) -> bool {
    b[at] != 0xE5 && b[at + 11] != 0x0F
}

/// How many of the 16 entries of a directory sector come before the entry
/// that ends the directory; 16 where none ends it. `n` entries are looked at.
pub open spec fn entries_before_end(b: Seq<u8>, n: nat) -> nat
    decreases n,
{
    if n == 0 {
        0
    } else {
        let before = entries_before_end(b, (n - 1) as nat);
        if before < n - 1 || b[32 * (n - 1)] == 0 {
            before
        } else {
            n
        }
    }
}

/// The names of the listed entries among the first `n` of a directory sector.
pub open spec fn names_in(b: Seq<u8>, n: nat) -> Seq<Seq<char>>
    decreases n,
{
    if n == 0 {
        Seq::empty()
    } else {
        let before = names_in(b, (n - 1) as nat);
        if entry_listed(b, 32 * (n - 1)) {
            before.push(entry_name(b, 32 * (n - 1)))
        } else {
            before
        }
    }
}

/// The names that one directory sector lists: those of its listed entries
/// before the entry that ends the directory.
pub open spec fn sector_names(b: Seq<u8>) -> Seq<Seq<char>> {
    names_in(b, entries_before_end(b, 16))
}

/// The names that the first `n` sectors list, sector after sector.
pub open spec fn root_names(sectors: Seq<[u8; 512]>, n: nat) -> Seq<Seq<char>>
    decreases n,
{
    if n == 0 {
        Seq::empty()
    } else {
        root_names(sectors, (n - 1) as nat) + sector_names(sectors[n - 1]@)
    }
}

/// The first 128 items of `s`, or all of `s` where it holds fewer.
pub open spec fn first_names(s: Seq<Seq<char>>) -> Seq<Seq<char>> {
    if s.len() <= 128 {
        s
    } else {
        s.take(128)
    }
}

/// Appends the first `n` bytes of `part` from `at` on as characters, blanks left out.
fn push_unpadded(s: &mut String, b: &[u8; 512], at: usize, n: usize)
    requires
        at + n <= 512,
    ensures
        final(s)@ == old(s)@ + unpadded(b@.subrange(at as int, at + n), n as nat),
{
    let ghost part = b@.subrange(at as int, at + n);
    let mut i: usize = 0;
    proof {
        assert(s@ =~= old(s)@ + unpadded(part, 0));
    }
    while i < n
        invariant
            i <= n,
            at + n <= 512,
            part == b@.subrange(at as int, at + n),
            s@ == old(s)@ + unpadded(part, i as nat),
        decreases n - i,
    {
        let c = b[at + i];
        proof {
            assert(part[i as int] == c);
        }
        if c != 0x20 {
            push_char(s, c as char);
            proof {
                assert(s@ =~= old(s)@ + unpadded(part, (i + 1) as nat));
            }
        }
        i += 1;
    }
}

/// The name of the directory entry at `at`; see `entry_name`.
pub fn name_at(b: &[u8; 512], at: usize) -> (name: String)
    requires
        at + 32 <= 512,
    ensures
        name@ == entry_name(b@, at as int),
{
    let mut s = String::new();
    push_unpadded(&mut s, b, at, 8);
    if b[at + 8] != 0x20 {
        push_char(&mut s, '.');
        push_unpadded(&mut s, b, at + 8, 3);
        proof {
            assert(s@ =~= entry_name(b@, at as int));
        }
    } else {
        proof {
            assert(s@ =~= entry_name(b@, at as int));
        }
    }
    s
}

/// What a list of names holds.
pub open spec fn name_texts(v: Seq<String>) -> Seq<Seq<char>> {
    Seq::new(v.len(), |i: int| v[i]@)
}

/// Lists the names of the root directory from its sectors, as far as they
/// were read, at most 32 of them: for each sector the entries before the one
/// that ends the directory, deleted entries and parts of long names left
/// out. At most 128 names are kept.
pub fn list_root(sectors: &Vec<[u8; 512]>) -> (out: Vec<String>)
    ensures
        name_texts(out@) == first_names(
            root_names(sectors@, if sectors@.len() <= 32 { sectors@.len() } else { 32 }),
        ),
{
    let mut out: Vec<String> = Vec::new();
    let count: usize = if sectors.len() <= ROOT_SECTORS { sectors.len() } else { ROOT_SECTORS };
    let mut k: usize = 0;
    proof {
        assert(name_texts(out@) =~= first_names(root_names(sectors@, 0)));
    }
    while k < count
        invariant
            k <= count <= sectors@.len(),
            name_texts(out@) == first_names(root_names(sectors@, k as nat)),
        decreases count - k,
    {
        let b = &sectors[k];
        let ghost done = root_names(sectors@, k as nat);
        let mut i: usize = 0;
        proof {
            assert(done + names_in(b@, 0) =~= done);
        }
        while i < 16 && b[32 * i] != 0
            invariant
                i <= 16,
                entries_before_end(b@, i as nat) == i,
                name_texts(out@) == first_names(done + names_in(b@, i as nat)),
            decreases 16 - i,
        {
            let at = 32 * i;
            let ghost had = name_texts(out@);
            let ghost before = done + names_in(b@, i as nat);
            if b[at] != 0xE5 && b[at + 11] != 0x0F {
                let name = name_at(b, at);
                if out.len() < MAX_NAMES {
                    out.push(name);
                }
                proof {
                    let grown = done + names_in(b@, (i + 1) as nat);
                    assert(grown =~= before.push(name@));
                    if before.len() < 128 {
                        assert(name_texts(out@) =~= had.push(name@));
                        assert(first_names(grown) =~= had.push(name@));
                    } else {
                        assert(first_names(grown) =~= had);
                    }
                }
            }
            i += 1;
        }
        proof {
            lemma_entries_end(b@, i as nat, 16);
            assert(done + sector_names(b@) == done + names_in(b@, i as nat));
        }
        k += 1;
    }
    out
}

/// Once an entry ends the directory, no later entry counts.
pub proof fn lemma_entries_end(b: Seq<u8>, i: nat, n: nat)
    requires
        i <= n,
        entries_before_end(b, i) == i,
        i < n ==> b[32 * i as int] == 0,
    ensures
        entries_before_end(b, n) == i,
    decreases n,
{
    if i < n {
        lemma_entries_end(b, i, (n - 1) as nat);
    }
}

/// The cluster that follows `cluster` in its chain, from the sector of the
/// file allocation table that holds its entry; `None` at the end of the chain.
pub open spec fn next_cluster(fat: Seq<u8>, cluster: u32, bps: u16) -> Option<u32> {
    let entry = le_u16(fat, (cluster as int * 2) % (bps as int));
    if entry >= 0xFFF8 {
        None
    } else {
        Some(entry as u32)
    }
}

/// The sector of the file allocation table that holds the entry of `cluster`.
pub fn fat_sector_of(fat_start: u32, cluster: u32, bps: u16) -> (lba: u64)
    requires
        bps > 0,
    ensures
        lba == fat_start + (cluster as int * 2) / (bps as int),
{
    fat_start as u64 + (cluster as u64 * 2) / (bps as u64)
}

/// The first sector of the data of `cluster`, with one sector to a cluster.
pub fn cluster_lba(first_data: u32, cluster: u32) -> (lba: u64)
    requires
        cluster >= 2,
    ensures
        lba == first_data + (cluster - 2),
{
    first_data as u64 + (cluster as u64 - 2)
}

/// True while `cluster` names data: from two up to the marks of the end of a chain.
pub fn in_chain(cluster: u32) -> (more: bool)
    ensures
        more == (2 <= cluster < 0xFFF8),
{
    cluster >= 2 && cluster < 0xFFF8
}

/// Takes the bytes of a file from one sector of its chain: appends the
/// sector's bytes to `out`, as many as the file still lacks, and returns how
/// many it lacks after that.
pub fn read_chain_fat16(out: &mut Vec<u8>, data: &[u8; 512], remaining: usize) -> (left: usize)
    ensures
        final(out)@ == old(out)@ + data@.take(if remaining < 512 { remaining as int } else { 512 }),
        left == remaining - (if remaining < 512 { remaining as int } else { 512 }),
{
    let to_copy: usize = if remaining < 512 { remaining } else { 512 };
    let mut i: usize = 0;
    proof {
        assert(out@ =~= old(out)@ + data@.take(0));
    }
    while i < to_copy
        invariant
            i <= to_copy <= 512,
            out@ == old(out)@ + data@.take(i as int),
        decreases to_copy - i,
    {
        out.push(data[i]);
        proof {
            assert(out@ =~= old(out)@ + data@.take(i + 1));
        }
        i += 1;
    }
    remaining - to_copy
}

/// Reads the entry of `cluster` from the sector of the file allocation
/// table that holds it; see `next_cluster`.
pub fn next_in_chain(fat: &[u8; 512], cluster: u32, bps: u16) -> (next: Option<u32>)
    requires
        bps > 0,
        (cluster as int * 2) % (bps as int) + 2 <= 512,
    ensures
        next == next_cluster(fat@, cluster, bps),
{
    let off = ((cluster as u64 * 2) % (bps as u64)) as usize;
    let entry = read_u16(fat.as_slice(), off);
    if entry >= 0xFFF8 {
        None
    } else {
        Some(entry as u32)
    }
}

/// Whether two names are the same but for the case of the letters of the
/// basic alphabet.
pub fn same_name(a: &str, b: &str) -> (same: bool)
    ensures
        same == (crate::text::lowered(a@) == crate::text::lowered(b@)),
{
    let x = crate::text::to_lowered(&crate::text::chars_of(a));
    let y = crate::text::to_lowered(&crate::text::chars_of(b));
    if x.len() != y.len() {
        return false;
    }
    let mut i: usize = 0;
    while i < x.len()
        invariant
            i <= x@.len(),
            x@.len() == y@.len(),
            x@ == crate::text::lowered(a@),
            y@ == crate::text::lowered(b@),
            x@.take(i as int) == y@.take(i as int),
        decreases x@.len() - i,
    {
        if x[i] != y[i] {
            return false;
        }
        proof {
            assert(x@.take(i + 1) =~= x@.take(i as int).push(x@[i as int]));
            assert(y@.take(i + 1) =~= y@.take(i as int).push(y@[i as int]));
        }
        i += 1;
    }
    proof {
        assert(x@.take(i as int) =~= x@);
        assert(y@.take(i as int) =~= y@);
    }
    true
}

/// Where a file lies and how large it is: its first cluster and its size in bytes.
#[derive(Clone, Copy, Debug, PartialEq, Eq, Structural)]
pub struct FileEntry {
    pub first_cluster: u32,
    pub size: u32,
}

/// What the directory entry at `at` says of its file.
pub open spec fn file_entry(b: Seq<u8>, at: int) -> FileEntry {
    FileEntry { first_cluster: (le_u16(b, at + 20) * 0x1_0000 + le_u16(b, at + 26)) as u32, size: le_u32(b, at + 28) as u32 }
}

/// True when entry `i` of a directory sector is listed and has the name
/// `name`, but for the case of the letters.
pub open spec fn entry_matches(b: Seq<u8>, name: Seq<char>, i: int) -> bool {
    entry_listed(b, 32 * i) && crate::text::lowered(entry_name(b, 32 * i)) == crate::text::lowered(name)
}

/// True when entry `i` is the first before the end of the directory that
/// has the name `name`.
pub open spec fn first_match(b: Seq<u8>, name: Seq<char>, i: int) -> bool {
    &&& 0 <= i < entries_before_end(b, 16)
    &&& entry_matches(b, name, i)
    &&& forall|j: int| 0 <= j < i ==> !#[trigger] entry_matches(b, name, j)
}

/// Looks the file `name83` up in one sector of the root directory: the
/// first listed entry before the end of the directory whose name is the
/// same but for the case of its letters.
pub fn read_file_root_8_3(b: &[u8; 512], name83: &str) -> (r: Option<FileEntry>)
    ensures
        match r {
            Some(e) => exists|i: int| #[trigger] first_match(b@, name83@, i) && e == file_entry(b@, 32 * i),
            None => forall|i: int| 0 <= i < entries_before_end(b@, 16) ==> !#[trigger] entry_matches(b@, name83@, i),
        },
{
    let mut i: usize = 0;
    while i < 16 && b[32 * i] != 0
        invariant
            i <= 16,
            entries_before_end(b@, i as nat) == i,
            forall|j: int| 0 <= j < i ==> !#[trigger] entry_matches(b@, name83@, j),
        decreases 16 - i,
    {
        let at = 32 * i;
        if b[at] != 0xE5 && b[at + 11] != 0x0F {
            let name = name_at(b, at);
            if same_name(name.as_str(), name83) {
                let sector: &[u8] = b.as_slice();
                let lo = read_u16(sector, at + 26) as u32;
                let hi = read_u16(sector, at + 20) as u32;
                let size = read_u32(sector, at + 28);
                proof {
                    lemma_entries_reach(b@, i as nat, 16);
                    assert(first_match(b@, name83@, i as int));
                }
                return Some(FileEntry { first_cluster: hi * 0x1_0000 + lo, size });
            }
        }
        proof {
            assert(!entry_matches(b@, name83@, i as int));
        }
        i += 1;
    }
    proof {
        lemma_entries_end(b@, i as nat, 16);
    }
    None
}

/// An entry that is reached before the end of the directory lies before it.
pub proof fn lemma_entries_reach(b: Seq<u8>, i: nat, n: nat)
    requires
        i < n,
        entries_before_end(b, i) == i,
        b[32 * i as int] != 0,
    ensures
        entries_before_end(b, n) > i,
    decreases n,
{
    if i + 1 < n {
        lemma_entries_reach(b, i, (n - 1) as nat);
    }
}

} // verus!
