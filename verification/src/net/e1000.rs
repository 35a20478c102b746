use vstd::prelude::*;

verus! {

/// Number of descriptors of the receive ring.
pub const RX_RING_SIZE: usize = 32;

/// Number of descriptors of the transmit ring.
pub const TX_RING_SIZE: usize = 32;

/// Size of a packet buffer in bytes.
pub const BUFFER_SIZE: usize = 2048;

/// Vendor of the network card.
pub const VENDOR_INTEL: u16 = 0x8086;

/// Class of network controllers.
pub const CLASS_NETWORK: u8 = 0x02;

/// The network card: where its registers lie in memory, and its hardware address.
#[derive(Clone, Copy, Debug, PartialEq, Eq)]
pub struct E1000 {
    pub regs: u64,
    pub mac: [u8; 6],
}

/// The hardware address that the two address registers hold: the four bytes
/// of the low register, low byte first, then the two low bytes of the high one.
pub open spec fn mac_of(ral: u32, rah: u32) -> Seq<u8> {
    seq![
        (ral % 0x100) as u8,
        ((ral / 0x100) % 0x100) as u8,
        ((ral / 0x1_0000) % 0x100) as u8,
        (ral / 0x100_0000) as u8,
        (rah % 0x100) as u8,
        ((rah / 0x100) % 0x100) as u8,
    ]
}

impl E1000 {
    /// The card behind the base address register `bar0`, with the hardware
    /// address from its two address registers: the registers lie at the
    /// address that `bar0` gives without its four low bits.
    pub fn init(bar0: u32, ral: u32, rah: u32) -> (e: Self)
        ensures
            e.regs == bar0 - bar0 % 16,
            e.mac@ == mac_of(ral, rah),
    {
        let mac = [
            (ral % 0x100) as u8,
            ((ral / 0x100) % 0x100) as u8,
            ((ral / 0x1_0000) % 0x100) as u8,
            (ral / 0x100_0000) as u8,
            (rah % 0x100) as u8,
            ((rah / 0x100) % 0x100) as u8,
        ];
        proof {
            assert(mac@ =~= mac_of(ral, rah));
        }
        E1000 { regs: (bar0 - bar0 % 16) as u64, mac }
    }

    /// Whether a packet of `len` bytes fits in a transmit buffer.
    pub fn send(&self, len: usize) -> (ok: bool)
        ensures
            ok == (len <= BUFFER_SIZE),
    {
        len <= BUFFER_SIZE
    }

    /// The descriptors to take packets from, in order, when the card has
    /// its head at `rdh` and the driver its tail at `rdt`: those after the
    /// tail, as long as their status says that a packet is complete, up to
    /// the head. `done` says for each descriptor whether its packet is complete.
    pub fn poll_rx(&self, rdh: usize, rdt: usize, done: &[bool; 32]) -> (taken: Vec<usize>)
        requires
            rdh < 32,
            rdt < 32,
        ensures
            taken@ == received(rdh as int, rdt as int, done@, taken@.len()),
            taken@.len() <= 32,
            taken@.len() < 32 ==> ring_after(rdt as int, taken@.len() as int + 1) == rdh || !done@[ring_after(
                rdt as int,
                taken@.len() as int + 1,
            )],
    {
        let mut taken: Vec<usize> = Vec::new();
        let mut idx: usize = (rdt + 1) % RX_RING_SIZE;
        while idx != rdh && done[idx] && taken.len() < 32
            invariant
                idx < 32,
                rdh < 32,
                rdt < 32,
                taken@.len() <= 32,
                idx == ring_after(rdt as int, taken@.len() as int + 1),
                taken@ == received(rdh as int, rdt as int, done@, taken@.len()),
            decreases 32 - taken@.len(),
        {
            taken.push(idx);
            proof {
                assert(taken@ =~= received(rdh as int, rdt as int, done@, taken@.len()));
            }
            idx = (idx + 1) % RX_RING_SIZE;
        }
        taken
    }
}

/// The descriptor `k` places after `at` in a ring of 32.
pub open spec fn ring_after(at: int, k: int) -> int {
    (at + k) % 32
}

/// The first `n` descriptors after the tail.
pub open spec fn received(rdh: int, rdt: int, done: Seq<bool>, n: nat) -> Seq<usize>
    decreases n,
{
    if n == 0 {
        Seq::empty()
    } else {
        received(rdh, rdt, done, (n - 1) as nat).push(ring_after(rdt, n as int) as usize)
    }
}

/// The command register of the card's function with bus mastering enabled:
/// bit two is set.
pub fn enable_bus_master(cmd: u32) -> (r: u32)
    ensures
        r == cmd | 4,
{
    cmd | 4
}

/// The descriptor that the next packet is sent from: the one after the tail.
pub fn next_tx(tdt: usize) -> (next: usize)
    requires
        tdt < 32,
    ensures
        next == ring_after(tdt as int, 1),
{
    (tdt + 1) % TX_RING_SIZE
}

/// The writes that set the two rings up, as pairs of a register's offset
/// and a value, in order: for the receive ring its address, its size in
/// bytes, head and tail, and the switch that enables it with all packets
/// let in; then the same for the transmit ring.
pub open spec fn ring_setup(rx_ring: u64, tx_ring: u64) -> Seq<(u32, u32)> {
    seq![
        (0x02800u32, (rx_ring % 0x1_0000_0000) as u32),
        (0x02804u32, (rx_ring / 0x1_0000_0000) as u32),
        (0x02808u32, 512u32),
        (0x02810u32, 0u32),
        (0x02818u32, 31u32),
        (0x00100u32, 0x16u32),
        (0x03800u32, (tx_ring % 0x1_0000_0000) as u32),
        (0x03804u32, (tx_ring / 0x1_0000_0000) as u32),
        (0x03808u32, 512u32),
        (0x03810u32, 0u32),
        (0x03818u32, 0u32),
        (0x00400u32, 0x400F2u32),
    ]
}

/// The writes that set the two rings up; see `ring_setup`.
pub fn init_rings(rx_ring: u64, tx_ring: u64) -> (writes: Vec<(u32, u32)>)
    ensures
        writes@ == ring_setup(rx_ring, tx_ring),
{
    let mut writes: Vec<(u32, u32)> = Vec::new();
    writes.push((0x02800, (rx_ring % 0x1_0000_0000) as u32));
    writes.push((0x02804, (rx_ring / 0x1_0000_0000) as u32));
    writes.push((0x02808, 512));
    writes.push((0x02810, 0));
    writes.push((0x02818, 31));
    writes.push((0x00100, 0x16));
    writes.push((0x03800, (tx_ring % 0x1_0000_0000) as u32));
    writes.push((0x03804, (tx_ring / 0x1_0000_0000) as u32));
    writes.push((0x03808, 512));
    writes.push((0x03810, 0));
    writes.push((0x03818, 0));
    writes.push((0x00400, 0x400F2));
    proof {
        assert(writes@ =~= ring_setup(rx_ring, tx_ring));
    }
    writes
}

} // verus!
