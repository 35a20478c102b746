use vstd::prelude::*;

verus! {

/// Port through which a configuration register is chosen.
pub const PCI_CONFIG_ADDRESS: u16 = 0xCF8;

/// Port through which the chosen configuration register is read and written.
pub const PCI_CONFIG_DATA: u16 = 0xCFC;

/// What an empty slot answers.
pub const NO_DEVICE: u32 = 0xFFFF_FFFF;

/// A device on the bus: where it sits, who made it, and what it is.
#[derive(Clone, Copy, Debug, PartialEq, Eq, Structural)]
pub struct PciDevice {
    pub bus: u8,
    pub slot: u8,
    pub func: u8,
    pub vendor: u16,
    pub device: u16,
    pub class: u8,
    pub subclass: u8,
}

/// The address that chooses a configuration register: the enable bit in
/// bit 31, the bus from bit 16 on, the slot from bit 11 on, the function from
/// bit 8 on, and the offset without its two low bits.
pub open spec fn config_address(bus: u8, slot: u8, func: u8, offset: u8) -> u32 {
    (1u32 << 31) | ((bus as u32) << 16) | ((slot as u32) << 11) | ((func as u32) << 8) | ((offset as u32) & 0xFC)
}

/// The address that chooses a register of a function's configuration space.
pub fn pci_config_address(bus: u8, slot: u8, func: u8, offset: u8) -> (a: u32)
    ensures
        a == config_address(bus, slot, func, offset),
{
    (1u32 << 31) | ((bus as u32) << 16) | ((slot as u32) << 11) | ((func as u32) << 8) | ((offset as u32) & 0xFC)
}

/// The device that a function answers with: `None` for an empty slot, else
/// vendor and device from the low and high half of the identification
/// register, class and subclass from the two high bytes of the class register.
pub open spec fn device_of(bus: u8, slot: u8, func: u8, id: u32, class_reg: u32) -> Option<PciDevice> {
    if id == NO_DEVICE {
        None
    } else {
        Some(
            PciDevice {
                bus,
                slot,
                func,
                vendor: (id % 0x1_0000) as u16,
                device: (id / 0x1_0000) as u16,
                class: (class_reg / 0x100_0000) as u8,
                subclass: ((class_reg / 0x1_0000) % 0x100) as u8,
            },
        )
    }
}

/// The device that a function answers with; see `device_of`.
pub fn decode_device(bus: u8, slot: u8, func: u8, id: u32, class_reg: u32) -> (d: Option<PciDevice>)
    ensures
        d == device_of(bus, slot, func, id, class_reg),
{
    if id == NO_DEVICE {
        None
    } else {
        Some(
            PciDevice {
                bus,
                slot,
                func,
                vendor: (id % 0x1_0000) as u16,
                device: (id / 0x1_0000) as u16,
                class: (class_reg / 0x100_0000) as u8,
                subclass: ((class_reg / 0x1_0000) % 0x100) as u8,
            },
        )
    }
}

/// The devices among the first `n` functions of the bus, in the order of
/// bus, slot and function. `regs` holds for each function its identification
/// register and its class register.
pub open spec fn devices(regs: Seq<(u32, u32)>, n: nat) -> Seq<PciDevice>
    decreases n,
{
    if n == 0 {
        Seq::empty()
    } else {
        let k = n - 1;
        let before = devices(regs, k as nat);
        match device_of((k / 256) as u8, ((k / 8) % 32) as u8, (k % 8) as u8, regs[k].0, regs[k].1) {
            Some(d) => before.push(d),
            None => before,
        }
    }
}

/// Lists the devices on the bus from what the functions answered, in the
/// order of bus, slot and function: `regs` holds the identification and the
/// class register of each of the 65536 functions.
pub fn enumerate(regs: &Vec<(u32, u32)>) -> (found: Vec<PciDevice>)
    requires
        regs@.len() == 65536,
    ensures
        found@ == devices(regs@, 65536),
{
    let mut found: Vec<PciDevice> = Vec::new();
    let mut k: usize = 0;
    while k < 65536
        invariant
            k <= 65536,
            regs@.len() == 65536,
            found@ == devices(regs@, k as nat),
        decreases 65536 - k,
    {
        let r = regs[k];
        match decode_device((k / 256) as u8, ((k / 8) % 32) as u8, (k % 8) as u8, r.0, r.1) {
            Some(d) => {
                found.push(d);
            },
            None => {},
        }
        k += 1;
    }
    found
}

} // verus!
