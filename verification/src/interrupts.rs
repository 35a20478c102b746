use vstd::prelude::*;

verus! {

/// First vector of the first interrupt controller.
pub const PIC_1_OFFSET: u8 = 32;

/// First vector of the second interrupt controller.
pub const PIC_2_OFFSET: u8 = 40;

/// The interrupts that the kernel handles.
#[derive(Clone, Copy, Debug, PartialEq, Eq, Structural)]
pub enum InterruptIndex {
    Timer,
    Keyboard,
    Mouse,
    Syscall,
}

/// The vector of an interrupt: the timer and the keyboard are the first two
/// lines of the first controller, the mouse is line twelve, and calls from
/// user code come in at vector 128.
pub open spec fn vector_of(i: InterruptIndex) -> u8 {
    match i {
        InterruptIndex::Timer => 32,
        InterruptIndex::Keyboard => 33,
        InterruptIndex::Mouse => 44,
        InterruptIndex::Syscall => 128,
    }
}

impl InterruptIndex {
    /// The vector of the interrupt.
    pub fn as_u8(self) -> (v: u8)
        ensures
            v == vector_of(self),
    {
        match self {
            InterruptIndex::Timer => PIC_1_OFFSET,
            InterruptIndex::Keyboard => PIC_1_OFFSET + 1,
            InterruptIndex::Mouse => PIC_1_OFFSET + 12,
            InterruptIndex::Syscall => 0x80,
        }
    }

    /// The vector of the interrupt, as an index into the table of handlers.
    pub fn as_usize(self) -> (v: usize)
        ensures
            v == vector_of(self),
    {
        self.as_u8() as usize
    }
}

/// What the kernel does on an interrupt.
#[derive(Clone, Copy, Debug, PartialEq, Eq, Structural)]
pub enum Handling {
    /// Count a tick and let the scheduler run.
    Tick,
    /// Read a scancode from the keyboard.
    ReadKey,
    /// Read a byte from the mouse.
    ReadMouse,
    /// Enter the system call path.
    Call,
}

/// What to do on an interrupt, and the vector to acknowledge at the
/// interrupt controller afterwards; calls from user code are not acknowledged.
pub fn notify_end_of_interrupt(idx: InterruptIndex) -> (r: (Handling, Option<u8>))
    ensures
        r.0 == match idx {
            InterruptIndex::Timer => Handling::Tick,
            InterruptIndex::Keyboard => Handling::ReadKey,
            InterruptIndex::Mouse => Handling::ReadMouse,
            InterruptIndex::Syscall => Handling::Call,
        },
        r.1 == if idx == InterruptIndex::Syscall { None } else { Some(vector_of(idx)) },
{
    match idx {
        InterruptIndex::Timer => (Handling::Tick, Some(idx.as_u8())),
        InterruptIndex::Keyboard => (Handling::ReadKey, Some(idx.as_u8())),
        InterruptIndex::Mouse => (Handling::ReadMouse, Some(idx.as_u8())),
        InterruptIndex::Syscall => (Handling::Call, None),
    }
}

} // verus!
