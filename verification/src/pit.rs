use crate::scheduler::{on_tick, Scheduler, Switch};
use crate::text::{decimal, decimal_of, pad_left, push_char, push_padded};
use vstd::prelude::*;

verus! {

/// Frequency of the timer's oscillator in hertz.
pub const PIT_FREQUENCY: u32 = 1193182;

/// The timer: how many ticks have passed since boot, and how many come in a second.
pub struct Pit {
    ticks: u64,
    hz: u32,
}

/// What the timer holds, as plain values.
pub struct PitView {
    pub ticks: u64,
    pub hz: u32,
}

impl View for Pit {
    type V = PitView;

    closed spec fn view(&self) -> PitView {
        PitView { ticks: self.ticks, hz: self.hz }
    }
}

/// The three bytes that program the timer: the command byte, then the low
/// and the high byte of the divisor.
#[derive(Clone, Copy, Debug, PartialEq, Eq, Structural)]
pub struct PitSetup {
    pub command: u8,
    pub low: u8,
    pub high: u8,
}

/// The divisor for `hz` ticks a second: the oscillator's frequency divided by
/// `hz`, of which the low 16 bits are kept.
pub open spec fn divisor(hz: u32) -> int {
    (PIT_FREQUENCY as int / hz as int) % 0x1_0000
}

/// Whole seconds since boot.
pub open spec fn uptime(p: PitView) -> u64 {
    (p.ticks / p.hz as u64) as u64
}

/// The uptime `secs` as hours, minutes and seconds, each with at least two
/// digits, with colons between them.
pub open spec fn uptime_text(secs: u64) -> Seq<char> {
    pad_left(decimal((secs / 3600) as nat), 2, '0') + seq![':'] + pad_left(decimal(((secs % 3600) / 60) as nat), 2, '0') + seq![
        ':',
    ] + pad_left(decimal((secs % 60) as nat), 2, '0')
}

/// Sets the timer up for `hz` ticks a second, with no tick counted, and gives
/// the bytes to program the device with.
pub fn init(hz: u32) -> (r: (Pit, PitSetup))
    requires
        hz > 0,
    ensures
        r.0@ == (PitView { ticks: 0, hz }),
        r.1.command == 0x36,
        r.1.low == divisor(hz) % 0x100,
        r.1.high == divisor(hz) / 0x100,
{
    let d: u32 = (PIT_FREQUENCY / hz) % 0x1_0000;
    (Pit { ticks: 0, hz }, PitSetup { command: 0x36, low: (d % 0x100) as u8, high: (d / 0x100) as u8 })
}

/// Whole seconds since boot: the ticks divided by the tick frequency.
pub fn uptime_secs(pit: &Pit) -> (secs: u64)
    requires
        pit@.hz > 0,
    ensures
        secs == uptime(pit@),
{
    pit.ticks / (pit.hz as u64)
}

/// The next tick count; after the greatest value it starts again at zero.
pub open spec fn next_ticks(ticks: u64) -> u64 {
    if ticks < u64::MAX {
        (ticks + 1) as u64
    } else {
        0
    }
}

/// One timer interrupt: counts the tick, then lets the scheduler run its
/// tick at the new uptime.
pub fn tick(pit: &mut Pit, s: &mut Scheduler, active_root: u64) -> (action: Option<Switch>)
    requires
        old(pit)@.hz > 0,
        old(s)@.wf(),
    ensures
        final(pit)@ == (PitView { ticks: next_ticks(old(pit)@.ticks), hz: old(pit)@.hz }),
        final(s)@ == old(s)@.tick(uptime(final(pit)@)),
        action == old(s)@.tick_action(active_root, uptime(final(pit)@)),
        final(s)@.wf(),
{
    pit.ticks = if pit.ticks < u64::MAX { pit.ticks + 1 } else { 0 };
    let now = uptime_secs(pit);
    on_tick(s, active_root, now)
}

/// The uptime as text: hours, minutes and seconds, two digits each at least.
pub fn format_uptime(pit: &Pit) -> (text: String)
    requires
        pit@.hz > 0,
    ensures
        text@ == uptime_text(uptime(pit@)),
{
    let secs = uptime_secs(pit);
    let h = secs / 3600;
    let m = (secs % 3600) / 60;
    let sec = secs % 60;
    let mut text = String::new();
    push_padded(&mut text, &decimal_of(h), 2, '0');
    push_char(&mut text, ':');
    push_padded(&mut text, &decimal_of(m), 2, '0');
    push_char(&mut text, ':');
    push_padded(&mut text, &decimal_of(sec), 2, '0');
    proof {
        assert(text@ =~= uptime_text(secs));
    }
    text
}

impl Pit {
    /// Ticks since boot.
    pub fn ticks(&self) -> (t: u64)
        ensures
            t == self@.ticks,
    {
        self.ticks
    }

    /// Ticks in a second.
    pub fn hz(&self) -> (hz: u32)
        ensures
            hz == self@.hz,
    {
        self.hz
    }
}

} // verus!
