use crate::graphics::{block, clipped, fill_rect, Color, Fb};
use vstd::prelude::*;

verus! {

/// The mouse: where the pointer is, and the bytes of the packet that is
/// coming in.
pub struct Mouse {
    x: i32,
    y: i32,
    byte_idx: u8,
    packet: [u8; 3],
}

/// What the mouse holds, as plain values.
pub struct MouseView {
    pub x: i32,
    pub y: i32,
    pub byte_idx: u8,
    pub packet: Seq<u8>,
}

impl View for Mouse {
    type V = MouseView;

    closed spec fn view(&self) -> MouseView {
        MouseView { x: self.x, y: self.y, byte_idx: self.byte_idx, packet: self.packet@ }
    }
}

/// A byte read as a signed number.
pub open spec fn signed(b: u8) -> int {
    if b < 128 {
        b as int
    } else {
        b - 256
    }
}

/// A position kept on the screen's side of zero and within 32 bits.
pub open spec fn clamped(v: int) -> i32 {
    if v < 0 {
        0
    } else if v > i32::MAX {
        i32::MAX
    } else {
        v as i32
    }
}

impl MouseView {
    /// The packet has three bytes, and the next byte goes to one of them.
    pub open spec fn wf(self) -> bool {
        self.byte_idx < 3 && self.packet.len() == 3
    }

    /// The mouse after the byte `b` came in: it is stored in the packet;
    /// with the third byte the packet is complete, and the pointer moves by
    /// the second byte to the right and by the third upwards.
    pub open spec fn received(self, b: u8) -> MouseView {
        let packet = self.packet.update(self.byte_idx as int, b);
        if self.byte_idx == 2 {
            MouseView {
                x: clamped(self.x + signed(packet[1])),
                y: clamped(self.y - signed(packet[2])),
                byte_idx: 0,
                packet,
            }
        } else {
            MouseView { byte_idx: (self.byte_idx + 1) as u8, packet, ..self }
        }
    }
}

impl Mouse {
    /// The mouse at boot: the pointer at (100, 100), no byte received.
    pub fn new() -> (m: Self)
        ensures
            m@ == (MouseView { x: 100, y: 100, byte_idx: 0, packet: seq![0u8, 0u8, 0u8] }),
            m@.wf(),
    {
        let m = Mouse { x: 100, y: 100, byte_idx: 0, packet: [0; 3] };
        proof {
            assert(m@.packet =~= seq![0u8, 0u8, 0u8]);
        }
        m
    }

    /// Where the pointer is.
    pub fn position(&self) -> (p: (i32, i32))
        ensures
            p == (self@.x, self@.y),
    {
        (self.x, self.y)
    }
}

/// A byte read as a signed number.
fn to_signed(b: u8) -> (v: i64)
    ensures
        v == signed(b),
{
    if b < 128 {
        b as i64
    } else {
        b as i64 - 256
    }
}

/// A position kept on the screen's side of zero and within 32 bits.
fn clamp(v: i64) -> (r: i32)
    ensures
        r == clamped(v as int),
{
    if v < 0 {
        0
    } else if v > i32::MAX as i64 {
        i32::MAX
    } else {
        v as i32
    }
}

/// Takes in one byte from the mouse; see `MouseView::received`.
pub fn on_irq(ms: &mut Mouse, b: u8)
    requires
        old(ms)@.wf(),
    ensures
        final(ms)@ == old(ms)@.received(b),
        final(ms)@.wf(),
{
    ms.packet[ms.byte_idx as usize] = b;
    if ms.byte_idx == 2 {
        ms.byte_idx = 0;
        let dx = to_signed(ms.packet[1]);
        let dy = to_signed(ms.packet[2]);
        ms.x = clamp(ms.x as i64 + dx);
        ms.y = clamp(ms.y as i64 - dy);
    } else {
        ms.byte_idx = ms.byte_idx + 1;
    }
}

/// The bytes that set up the mouse at the keyboard controller, as pairs of
/// a port and the byte to write there, in order: enable the auxiliary
/// device, ask for the command byte, write it back with the mouse
/// interrupt enabled, then tell the mouse to use its defaults and to report.
pub fn init(status: u8) -> (writes: Vec<(u16, u8)>)
    ensures
        writes@ == seq![
            (0x64u16, 0xA8u8),
            (0x64u16, 0x60u8),
            (0x60u16, status | 0x02),
            (0x64u16, 0xD4u8),
            (0x60u16, 0xF6u8),
            (0x64u16, 0xD4u8),
            (0x60u16, 0xF4u8),
        ],
{
    let mut writes: Vec<(u16, u8)> = Vec::new();
    writes.push((0x64, 0xA8));
    writes.push((0x64, 0x60));
    writes.push((0x60, status | 0x02));
    writes.push((0x64, 0xD4));
    writes.push((0x60, 0xF6));
    writes.push((0x64, 0xD4));
    writes.push((0x60, 0xF4));
    proof {
        assert(writes@ =~= seq![
            (0x64u16, 0xA8u8),
            (0x64u16, 0x60u8),
            (0x60u16, status | 0x02),
            (0x64u16, 0xD4u8),
            (0x60u16, 0xF6u8),
            (0x64u16, 0xD4u8),
            (0x60u16, 0xF4u8),
        ]);
    }
    writes
}

/// Paints the pointer: a white square of six pixels at its position.
pub fn draw_cursor(fb: &mut Fb, ms: &Mouse)
    requires
        old(fb)@.wf(),
    ensures
        final(fb)@.wf(),
        final(fb)@ == old(fb)@.draw(
            block(
                cursor_at(ms@.x),
                cursor_at(ms@.y),
                clipped(cursor_at(ms@.x), 6, old(fb)@.width as int),
                clipped(cursor_at(ms@.y), 6, old(fb)@.height as int),
                Color(255, 255, 255),
            ),
        ),
{
    let x: usize = if ms.x < 0 { 0 } else { ms.x as usize };
    let y: usize = if ms.y < 0 { 0 } else { ms.y as usize };
    fill_rect(fb, x, y, 6, 6, Color::white());
}

/// The coordinate of the pointer on the screen: never left of or above it.
pub open spec fn cursor_at(v: i32) -> int {
    if v < 0 {
        0
    } else {
        v as int
    }
}

} // verus!
