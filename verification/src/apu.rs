use vstd::prelude::*;
use std::collections::VecDeque;
use crate::bus::{Bus, BusView};

verus! {

struct Channel1 {
    channel_enable: bool,
    dac_enable: bool,
    timer_enable: bool,
    timer: u8,
    wave_duty: u8,
    wave_duty_index: u8,
    volune: u8,
    sweep_pace: u8,
    sweep_pace_timer: u8,
    period: u16,
    shadow_period: u16,
    period_sweep_pace: u8,
    period_sweep_enable: bool,
}

struct Channel2 {
    channel_enable: bool,
    dac_enable: bool,
    timer_enable: bool,
    timer: u8,
    wave_duty: u8,
    wave_duty_index: u8,
    volune: u8,
    sweep_pace: u8,
    sweep_pace_timer: u8,
    period: u16,
}

struct Channel3 {
    channel_enable: bool,
    dac_enable: bool,
    timer_enable: bool,
    timer: u16,
    output_level: u8,
    period: u16,
    sample_position: u8,
    sample: u8,
    sample_buffer: u8,
}

struct Channel4 {
    channel_enable: bool,
    dac_enable: bool,
    timer_enable: bool,
    timer: u16,
    volune: u8,
    sweep_pace: u8,
    sweep_pace_timer: u8,
    lfsr: u16,
    noise_timer: u32,
}

/// The sound unit's channel state. The high-pass filter of the output stage
/// works on floating-point samples and is kept by the caller.
pub struct Apu {
    dots: u64,
    channel1: Channel1,
    channel2: Channel2,
    channel3: Channel3,
    channel4: Channel4,
    channel_ticks: u64,
    frame_sequencer: u8,
}

/// The requests that reach the sound unit between two of its dots: a
/// trigger of each channel, a change of each length timer's enable bit, and
/// a new value of each length timer. Each call takes at most the first of
/// each queue.
pub struct ApuEvents {
    pub channel1_triggers: VecDeque<()>,
    pub channel2_triggers: VecDeque<()>,
    pub channel3_triggers: VecDeque<()>,
    pub channel4_triggers: VecDeque<()>,
    pub channel1_timer_triggers: VecDeque<bool>,
    pub channel2_timer_triggers: VecDeque<bool>,
    pub channel3_timer_triggers: VecDeque<bool>,
    pub channel4_timer_triggers: VecDeque<bool>,
    pub channel1_timer_values: VecDeque<u8>,
    pub channel2_timer_values: VecDeque<u8>,
    pub channel3_timer_values: VecDeque<u8>,
    pub channel4_timer_values: VecDeque<u8>,
}

impl ApuEvents {
    /// All queues empty.
    pub fn new() -> (ev: Self)
        ensures
            ev@ == (EventsView {
                triggers: seq![Seq::empty(), Seq::empty(), Seq::empty(), Seq::empty()],
                timer_triggers: seq![Seq::empty(), Seq::empty(), Seq::empty(), Seq::empty()],
                timer_values: seq![Seq::empty(), Seq::empty(), Seq::empty(), Seq::empty()],
            }),
    {
        let ev = ApuEvents {
            channel1_triggers: VecDeque::new(),
            channel2_triggers: VecDeque::new(),
            channel3_triggers: VecDeque::new(),
            channel4_triggers: VecDeque::new(),
            channel1_timer_triggers: VecDeque::new(),
            channel2_timer_triggers: VecDeque::new(),
            channel3_timer_triggers: VecDeque::new(),
            channel4_timer_triggers: VecDeque::new(),
            channel1_timer_values: VecDeque::new(),
            channel2_timer_values: VecDeque::new(),
            channel3_timer_values: VecDeque::new(),
            channel4_timer_values: VecDeque::new(),
        };
        assert(ev@.triggers =~~= seq![Seq::empty(), Seq::empty(), Seq::empty(), Seq::empty()]);
        assert(ev@.timer_triggers =~~= seq![Seq::empty(), Seq::empty(), Seq::empty(), Seq::empty()]);
        assert(ev@.timer_values =~~= seq![Seq::empty(), Seq::empty(), Seq::empty(), Seq::empty()]);
        ev
    }
}

/// The queues of `ApuEvents` as sequences.
pub struct EventsView {
    pub triggers: Seq<Seq<()>>,
    pub timer_triggers: Seq<Seq<bool>>,
    pub timer_values: Seq<Seq<u8>>,
}

impl View for ApuEvents {
    type V = EventsView;

    open spec fn view(&self) -> EventsView {
        EventsView {
            triggers: seq![
                self.channel1_triggers@,
                self.channel2_triggers@,
                self.channel3_triggers@,
                self.channel4_triggers@,
            ],
            timer_triggers: seq![
                self.channel1_timer_triggers@,
                self.channel2_timer_triggers@,
                self.channel3_timer_triggers@,
                self.channel4_timer_triggers@,
            ],
            timer_values: seq![
                self.channel1_timer_values@,
                self.channel2_timer_values@,
                self.channel3_timer_values@,
                self.channel4_timer_values@,
            ],
        }
    }
}

/// What the output stage needs of one sample: for each channel whether its
/// DAC and the channel are on and its digital level (0..=15), and the
/// volume (NR50) and panning (NR51) registers.
pub struct SampleInputs {
    pub dac: [bool; 4],
    pub enabled: [bool; 4],
    pub level: [u8; 4],
    pub nr50: u8,
    pub nr51: u8,
}

/// The sound registers as the unit reads them at the start of a dot.
pub struct SoundRegs {
    pub nr10: u8,
    pub nr11: u8,
    pub nr12: u8,
    pub nr13: u8,
    pub nr14: u8,
    pub nr21: u8,
    pub nr22: u8,
    pub nr23: u8,
    pub nr24: u8,
    pub nr30: u8,
    pub nr32: u8,
    pub nr33: u8,
    pub nr34: u8,
    pub nr42: u8,
    pub nr43: u8,
    pub nr50: u8,
    pub nr51: u8,
}

pub open spec fn regs_of(b: BusView) -> SoundRegs {
    SoundRegs {
        nr10: b.io[0x10],
        nr11: b.io[0x11],
        nr12: b.io[0x12],
        nr13: b.io[0x13],
        nr14: b.io[0x14],
        nr21: b.io[0x16],
        nr22: b.io[0x17],
        nr23: b.io[0x18],
        nr24: b.io[0x19],
        nr30: b.io[0x1A],
        nr32: b.io[0x1C],
        nr33: b.io[0x1D],
        nr34: b.io[0x1E],
        nr42: b.io[0x21],
        nr43: b.io[0x22],
        nr50: b.io[0x24],
        nr51: b.io[0x25],
    }
}

/// The bus with NR52 (0xFF26) replaced by `v`.
pub open spec fn with_nr52(b: BusView, v: u8) -> BusView {
    BusView { io: b.io.update(0x26, v), ..b }
}

/// An eleven-bit period from a low register and the three low bits of a
/// high register.
pub open spec fn period_of(low: u8, high: u8) -> u16 {
    ((high & 0x7) as u16 * 256 + low as u16) as u16
}

/// The eight-step duty pattern that bits 7-6 of NRx1 select.
pub open spec fn duty_pattern(nrx1: u8) -> u8 {
    let d = (nrx1 >> 6u8) & 0x3;
    if d == 0 {
        0b00000001
    } else if d == 1 {
        0b10000001
    } else if d == 2 {
        0b10000111
    } else {
        0b01111110
    }
}

/// The noise channel's timer period: the divisor (8, or 16 times the code in
/// bits 2-0 of NR43) shifted by bits 7-4.
pub open spec fn noise_period(nr43: u8) -> u32 {
    let code = (nr43 & 0x7) as u32;
    let divisor: u32 = if code == 0 {
        8
    } else {
        (16 * code) as u32
    };
    divisor << (nr43 >> 4u8)
}

/// The sweep's next period: the shadow period plus (bit 3 of NR10 clear) or
/// minus (set) itself shifted right by the step in bits 2-0.
pub open spec fn sweep_next(nr10: u8, period: u16) -> int {
    let change = period >> (nr10 & 0x07);
    if nr10 & 0x08 == 0 {
        period + change
    } else {
        period - change
    }
}

/// An envelope step: down by one to 0 (bit 3 of NRx2 clear) or up by one to
/// 15 (set).
pub open spec fn envelope_step(nrx2: u8, volume: u8) -> u8 {
    if (nrx2 >> 3u8) & 1 == 0 {
        if volume == 0 {
            0
        } else {
            (volume - 1) as u8
        }
    } else if volume < 15 {
        (volume + 1) as u8
    } else {
        volume
    }
}

/// The noise register after one clock: the XNOR of its two low bits enters
/// at bit 14, and also at bit 6 in the short mode (bit 3 of NR43).
pub open spec fn lfsr_step(lfsr: u16, nr43: u8) -> u16 {
    let feedback = !(lfsr ^ (lfsr >> 1u16)) & 1;
    let shifted = (lfsr >> 1u16) | (feedback << 14u16);
    if nr43 & 0x08 != 0 {
        (shifted & !(1u16 << 6u16)) | (feedback << 6u16)
    } else {
        shifted
    }
}

/// A queue without its first element, where it has one.
pub open spec fn drop_first<T>(q: Seq<T>) -> Seq<T> {
    if q.len() > 0 {
        q.subrange(1, q.len() as int)
    } else {
        q
    }
}

impl Apu {
    /// The state bounds that every operation keeps.
    pub closed spec fn wf(self) -> bool {
        &&& self.channel1.shadow_period <= 0x7FF
        &&& self.channel1.period <= 0x7FF
        &&& self.channel2.period <= 0x7FF
        &&& self.channel3.period <= 0x7FF
        &&& self.channel3.timer <= 256
        &&& self.channel1.wave_duty_index < 8
        &&& self.channel2.wave_duty_index < 8
        &&& self.channel3.sample_position < 32
        &&& self.channel1.sweep_pace <= 7
        &&& self.channel2.sweep_pace <= 7
        &&& self.channel4.sweep_pace <= 7
        &&& (self.channel1.sweep_pace == 0 || self.channel1.sweep_pace_timer
            < self.channel1.sweep_pace)
        &&& (self.channel2.sweep_pace == 0 || self.channel2.sweep_pace_timer
            < self.channel2.sweep_pace)
        &&& (self.channel4.sweep_pace == 0 || self.channel4.sweep_pace_timer
            < self.channel4.sweep_pace)
        &&& self.channel1.sweep_pace_timer <= 7
        &&& self.channel2.sweep_pace_timer <= 7
        &&& self.channel4.sweep_pace_timer <= 7
        &&& self.channel1.volune <= 15
        &&& self.channel2.volune <= 15
        &&& self.channel4.volune <= 15
        &&& self.channel3.output_level <= 3
        &&& self.channel3.sample <= 15
        &&& self.channel_ticks < 4194304
        &&& self.frame_sequencer < 8
    }

    /// Every channel off with its registers cleared, and every counter 0.
    pub closed spec fn initial() -> Apu {
        Apu {
            channel1: Channel1 {
                channel_enable: false,
                dac_enable: false,
                timer_enable: false,
                timer: 0,
                wave_duty: 0,
                wave_duty_index: 0,
                volune: 0,
                sweep_pace: 0,
                sweep_pace_timer: 0,
                period: 0,
                shadow_period: 0,
                period_sweep_pace: 0,
                period_sweep_enable: false,
            },
            channel2: Channel2 {
                channel_enable: false,
                dac_enable: false,
                timer_enable: false,
                timer: 0,
                wave_duty: 0,
                wave_duty_index: 0,
                volune: 0,
                sweep_pace: 0,
                sweep_pace_timer: 0,
                period: 0,
            },
            channel3: Channel3 {
                channel_enable: false,
                dac_enable: false,
                timer_enable: false,
                timer: 0,
                output_level: 0,
                period: 0,
                sample_position: 0,
                sample: 0,
                sample_buffer: 0,
            },
            channel4: Channel4 {
                channel_enable: false,
                dac_enable: false,
                timer_enable: false,
                timer: 0,
                volune: 0,
                sweep_pace: 0,
                sweep_pace_timer: 0,
                lfsr: 0,
                noise_timer: 0,
            },
            dots: 0,
            channel_ticks: 0,
            frame_sequencer: 0,
        }
    }

    /// The dot counter has room for one more dot.
    pub closed spec fn can_tick(self) -> bool {
        self.dots < u64::MAX
    }

    /// The step of the frame sequencer.
    pub closed spec fn frame_step(self) -> u8 {
        self.frame_sequencer
    }

    /// The envelope volume of channel 1, 2 or 4.
    pub closed spec fn volume(self, ch: int) -> u8 {
        if ch == 1 {
            self.channel1.volune
        } else if ch == 2 {
            self.channel2.volune
        } else {
            self.channel4.volune
        }
    }

    /// The envelope pace of channel 1, 2 or 4 (bits 2-0 of NRx2 at its
    /// last trigger).
    pub closed spec fn envelope_pace(self, ch: int) -> u8 {
        if ch == 1 {
            self.channel1.sweep_pace
        } else if ch == 2 {
            self.channel2.sweep_pace
        } else {
            self.channel4.sweep_pace
        }
    }

    /// The envelope's count toward its pace, for channel 1, 2 or 4.
    pub closed spec fn envelope_timer(self, ch: int) -> u8 {
        if ch == 1 {
            self.channel1.sweep_pace_timer
        } else if ch == 2 {
            self.channel2.sweep_pace_timer
        } else {
            self.channel4.sweep_pace_timer
        }
    }

    /// The dots counted since power-on.
    pub closed spec fn dot_count(self) -> u64 {
        self.dots
    }

    /// The duty step of square channel 1 or 2.
    pub closed spec fn duty_step(self, ch: int) -> u8 {
        if ch == 1 {
            self.channel1.wave_duty_index
        } else {
            self.channel2.wave_duty_index
        }
    }

    /// The wave channel's position in wave RAM, in nibbles.
    pub closed spec fn wave_position(self) -> u8 {
        self.channel3.sample_position
    }

    /// The wave channel's current 4-bit sample.
    pub closed spec fn wave_sample(self) -> u8 {
        self.channel3.sample
    }

    /// Whether channel `ch` (1..=4) is on.
    pub closed spec fn channel_on(self, ch: int) -> bool {
        if ch == 1 {
            self.channel1.channel_enable
        } else if ch == 2 {
            self.channel2.channel_enable
        } else if ch == 3 {
            self.channel3.channel_enable
        } else {
            self.channel4.channel_enable
        }
    }

    /// Whether the DAC of channel `ch` (1..=4) is on.
    pub closed spec fn dac_on(self, ch: int) -> bool {
        if ch == 1 {
            self.channel1.dac_enable
        } else if ch == 2 {
            self.channel2.dac_enable
        } else if ch == 3 {
            self.channel3.dac_enable
        } else {
            self.channel4.dac_enable
        }
    }

    /// The progress toward the next output sample, in units of which
    /// 4194304 make one sample period.
    pub closed spec fn sample_phase(self) -> u64 {
        self.channel_ticks
    }
}

impl Channel1 {
    spec fn triggered(self, r: SoundRegs) -> Channel1 {
        let period = period_of(r.nr13, r.nr14);
        let pace = (r.nr10 >> 4u8) & 0x7;
        let step = r.nr10 & 0x7;
        Channel1 {
            channel_enable: true,
            period: period,
            timer: if self.timer == 64 {
                0
            } else {
                self.timer
            },
            volune: r.nr12 >> 4u8,
            sweep_pace: r.nr12 & 0x7,
            sweep_pace_timer: 0,
            shadow_period: period,
            period_sweep_pace: if pace > 0 {
                pace
            } else {
                8
            },
            period_sweep_enable: pace > 0 || step > 0,
            ..self
        }
    }
}

/// A trigger of channel 1: the channel is enabled and reloaded from its
/// registers, with bit 0 of NR52 set; a sweep whose first step would pass
/// 0x7FF disables it again (bit 0 cleared).
spec fn trigger1(a: Apu, b: BusView, r: SoundRegs) -> (Apu, BusView) {
    let c1 = a.channel1.triggered(r);
    let b1 = with_nr52(b, b.io[0x26] | 1);
    let step = r.nr10 & 0x7;
    let period = c1.shadow_period;
    let first = if (r.nr10 >> 3u8) & 1 == 0 {
        period + (period >> step)
    } else {
        period - (period >> step)
    };
    if step > 0 && first > 0x7FF {
        (
            Apu { channel1: Channel1 { channel_enable: false, ..c1 }, ..a },
            with_nr52(b1, b1.io[0x26] & !1u8),
        )
    } else {
        (Apu { channel1: c1, ..a }, b1)
    }
}

spec fn trigger2(a: Apu, b: BusView, r: SoundRegs) -> (Apu, BusView) {
    let c = a.channel2;
    (
        Apu {
            channel2: Channel2 {
                channel_enable: true,
                timer: if c.timer == 64 {
                    0
                } else {
                    c.timer
                },
                period: period_of(r.nr23, r.nr24),
                volune: r.nr22 >> 4u8,
                sweep_pace: r.nr22 & 0x7,
                sweep_pace_timer: 0,
                ..c
            },
            ..a
        },
        with_nr52(b, b.io[0x26] | 2),
    )
}

spec fn trigger3(a: Apu, b: BusView, r: SoundRegs) -> (Apu, BusView) {
    let c = a.channel3;
    (
        Apu {
            channel3: Channel3 {
                sample_position: 0,
                channel_enable: true,
                timer: if c.timer == 256 {
                    0
                } else {
                    c.timer
                },
                period: period_of(r.nr33, r.nr34),
                ..c
            },
            ..a
        },
        with_nr52(b, b.io[0x26] | (1u8 << 2u8)),
    )
}

spec fn trigger4(a: Apu, b: BusView, r: SoundRegs) -> (Apu, BusView) {
    let c = a.channel4;
    (
        Apu {
            channel4: Channel4 {
                channel_enable: true,
                timer: if c.timer == 64 {
                    0
                } else {
                    c.timer
                },
                volune: r.nr42 >> 4u8,
                sweep_pace: r.nr42 & 0x7,
                sweep_pace_timer: 0,
                lfsr: 0,
                noise_timer: noise_period(r.nr43),
                ..c
            },
            ..a
        },
        with_nr52(b, b.io[0x26] | (1u8 << 3u8)),
    )
}

/// The triggers that the queues hold, channel by channel.
#[verifier::opaque]
spec fn triggers(a: Apu, b: BusView, r: SoundRegs, ev: EventsView) -> (Apu, BusView) {
    let (a1, b1) = if ev.triggers[0].len() > 0 {
        trigger1(a, b, r)
    } else {
        (a, b)
    };
    let (a2, b2) = if ev.triggers[1].len() > 0 {
        trigger2(a1, b1, r)
    } else {
        (a1, b1)
    };
    let (a3, b3) = if ev.triggers[2].len() > 0 {
        trigger3(a2, b2, r)
    } else {
        (a2, b2)
    };
    if ev.triggers[3].len() > 0 {
        trigger4(a3, b3, r)
    } else {
        (a3, b3)
    }
}

/// The length-timer requests: a new enable bit, then a new value, for each
/// channel whose queue holds one.
spec fn timer_events(a: Apu, ev: EventsView) -> Apu {
    timer_values(timer_enables(a, ev.timer_triggers), ev.timer_values)
}

/// The first of each channel's queue of length-timer enable bits.
#[verifier::opaque]
spec fn timer_enables(a: Apu, tt: Seq<Seq<bool>>) -> Apu {
    Apu {
        channel1: Channel1 {
            timer_enable: if tt[0].len() > 0 {
                tt[0][0]
            } else {
                a.channel1.timer_enable
            },
            ..a.channel1
        },
        channel2: Channel2 {
            timer_enable: if tt[1].len() > 0 {
                tt[1][0]
            } else {
                a.channel2.timer_enable
            },
            ..a.channel2
        },
        channel3: Channel3 {
            timer_enable: if tt[2].len() > 0 {
                tt[2][0]
            } else {
                a.channel3.timer_enable
            },
            ..a.channel3
        },
        channel4: Channel4 {
            timer_enable: if tt[3].len() > 0 {
                tt[3][0]
            } else {
                a.channel4.timer_enable
            },
            ..a.channel4
        },
        ..a
    }
}

/// The first of each channel's queue of length-timer values.
#[verifier::opaque]
spec fn timer_values(a: Apu, tv: Seq<Seq<u8>>) -> Apu {
    Apu {
        channel1: Channel1 {
            timer: if tv[0].len() > 0 {
                tv[0][0]
            } else {
                a.channel1.timer
            },
            ..a.channel1
        },
        channel2: Channel2 {
            timer: if tv[1].len() > 0 {
                tv[1][0]
            } else {
                a.channel2.timer
            },
            ..a.channel2
        },
        channel3: Channel3 {
            timer: if tv[2].len() > 0 {
                tv[2][0] as u16
            } else {
                a.channel3.timer
            },
            ..a.channel3
        },
        channel4: Channel4 {
            timer: if tv[3].len() > 0 {
                tv[3][0] as u16
            } else {
                a.channel4.timer
            },
            ..a.channel4
        },
        ..a
    }
}

/// Four queues, each without its first element where it has one.
pub open spec fn drop_firsts<T>(qs: Seq<Seq<T>>) -> Seq<Seq<T>> {
    seq![drop_first(qs[0]), drop_first(qs[1]), drop_first(qs[2]), drop_first(qs[3])]
}

/// The queues after one call: each without its first element.
pub open spec fn events_after(ev: EventsView) -> EventsView {
    EventsView {
        triggers: drop_firsts(ev.triggers),
        timer_triggers: drop_firsts(ev.timer_triggers),
        timer_values: drop_firsts(ev.timer_values),
    }
}

/// The DACs: channels 1, 2 and 4 have theirs on when bits 7-3 of NRx2 are
/// not all clear, channel 3 when bit 7 of NR30 is set; a channel whose DAC
/// is off is disabled and its bit of NR52 cleared.
spec fn dacs(a: Apu, b: BusView, r: SoundRegs) -> (Apu, BusView) {
    let (a1, b1) = dacs_low(a, b, r);
    dacs_high(a1, b1, r)
}

/// The DACs of channels 1 and 2.
#[verifier::opaque]
spec fn dacs_low(a: Apu, b: BusView, r: SoundRegs) -> (Apu, BusView) {
    let d1 = r.nr12 & 0xF8 != 0;
    let d2 = r.nr22 & 0xF8 != 0;
    let b1 = if d1 {
        b
    } else {
        with_nr52(b, b.io[0x26] & !1u8)
    };
    let b2 = if d2 {
        b1
    } else {
        with_nr52(b1, b1.io[0x26] & !(1u8 << 1u8))
    };
    (
        Apu {
            channel1: Channel1 {
                dac_enable: d1,
                channel_enable: a.channel1.channel_enable && d1,
                ..a.channel1
            },
            channel2: Channel2 {
                dac_enable: d2,
                channel_enable: a.channel2.channel_enable && d2,
                ..a.channel2
            },
            ..a
        },
        b2,
    )
}

/// The DACs of channels 3 and 4.
#[verifier::opaque]
spec fn dacs_high(a: Apu, b: BusView, r: SoundRegs) -> (Apu, BusView) {
    let d3 = r.nr30 >> 7u8 != 0;
    let d4 = r.nr42 & 0xF8 != 0;
    let b3 = if d3 {
        b
    } else {
        with_nr52(b, b.io[0x26] & !(1u8 << 2u8))
    };
    let b4 = if d4 {
        b3
    } else {
        with_nr52(b3, b3.io[0x26] & !(1u8 << 3u8))
    };
    (
        Apu {
            channel3: Channel3 {
                dac_enable: d3,
                channel_enable: a.channel3.channel_enable && d3,
                ..a.channel3
            },
            channel4: Channel4 {
                dac_enable: d4,
                channel_enable: a.channel4.channel_enable && d4,
                ..a.channel4
            },
            ..a
        },
        b4,
    )
}

/// The duty patterns of the square channels and the wave channel's output
/// level, from their registers.
#[verifier::opaque]
spec fn patterns(a: Apu, r: SoundRegs) -> Apu {
    Apu {
        channel1: Channel1 { wave_duty: duty_pattern(r.nr11), ..a.channel1 },
        channel2: Channel2 { wave_duty: duty_pattern(r.nr21), ..a.channel2 },
        channel3: Channel3 { output_level: (r.nr32 >> 5u8) & 0x3, ..a.channel3 },
        ..a
    }
}

/// The square channels' period counters, every fourth dot after the first:
/// each counts up modulo 0x800; on wrapping to 0 it is reloaded from its
/// registers and the duty step moves on.
#[verifier::opaque]
spec fn square_periods(a: Apu, r: SoundRegs) -> Apu {
    if a.dots % 4 == 0 && a.dots > 0 {
        let p1 = ((a.channel1.period + 1) % 0x800) as u16;
        let p2 = ((a.channel2.period + 1) % 0x800) as u16;
        Apu {
            channel1: if p1 == 0 {
                Channel1 {
                    period: period_of(r.nr13, r.nr14),
                    wave_duty_index: ((a.channel1.wave_duty_index + 1) % 8) as u8,
                    ..a.channel1
                }
            } else {
                Channel1 { period: p1, ..a.channel1 }
            },
            channel2: if p2 == 0 {
                Channel2 {
                    period: period_of(r.nr23, r.nr24),
                    wave_duty_index: ((a.channel2.wave_duty_index + 1) % 8) as u8,
                    ..a.channel2
                }
            } else {
                Channel2 { period: p2, ..a.channel2 }
            },
            ..a
        }
    } else {
        a
    }
}

/// The wave channel's period counter, every second dot after the first; on
/// wrapping it is reloaded and, while the channel is on, the next 4-bit
/// sample is read from wave RAM (0xFF30..=0xFF3F, high nibble first).
#[verifier::opaque]
spec fn wave_period(a: Apu, b: BusView, r: SoundRegs) -> Apu {
    let c = a.channel3;
    if a.dots % 2 == 0 && a.dots > 0 {
        let p = ((c.period + 1) % 0x800) as u16;
        if p != 0 {
            Apu { channel3: Channel3 { period: p, ..c }, ..a }
        } else if !c.channel_enable {
            Apu { channel3: Channel3 { period: period_of(r.nr33, r.nr34), ..c }, ..a }
        } else {
            let pos = ((c.sample_position + 1) % 32) as u8;
            let whole = b.io[0x30 + pos / 2];
            Apu {
                channel3: Channel3 {
                    period: period_of(r.nr33, r.nr34),
                    sample_position: pos,
                    sample_buffer: c.sample,
                    sample: if pos % 2 == 0 {
                        whole >> 4u8
                    } else {
                        whole & 0b1111
                    },
                    ..c
                },
                ..a
            }
        }
    } else {
        a
    }
}

/// The noise channel's timer, while the channel is on and the shift in NR43
/// is below 14: reloaded when at 0, counted down, and on reaching 0 the
/// noise register is clocked.
#[verifier::opaque]
spec fn noise(a: Apu, nr43: u8) -> Apu {
    let c = a.channel4;
    if c.channel_enable && (nr43 >> 4u8) < 14 {
        let t = if c.noise_timer == 0 {
            noise_period(nr43)
        } else {
            c.noise_timer
        };
        let t1 = (t - 1) as u32;
        Apu {
            channel4: Channel4 {
                noise_timer: t1,
                lfsr: if t1 == 0 {
                    lfsr_step(c.lfsr, nr43)
                } else {
                    c.lfsr
                },
                ..c
            },
            ..a
        }
    } else {
        a
    }
}

/// Channel 1's frequency sweep, clocked by the frame sequencer.
#[verifier::opaque]
spec fn sweep(a: Apu, b: BusView) -> (Apu, BusView) {
    let c = a.channel1;
    if c.period_sweep_pace == 0 {
        (a, b)
    } else if c.period_sweep_pace != 1 {
        (Apu { channel1: Channel1 { period_sweep_pace: (c.period_sweep_pace - 1) as u8, ..c }, ..a }, b)
    } else {
        let nr10 = b.io[0x10];
        let pace = (nr10 >> 4u8) & 0x07;
        let step = nr10 & 0x07;
        let c1 = Channel1 {
            period_sweep_pace: if pace == 0 {
                8
            } else {
                pace
            },
            ..c
        };
        if !c.period_sweep_enable || pace == 0 {
            (Apu { channel1: c1, ..a }, b)
        } else {
            let candidate = sweep_next(nr10, c.shadow_period);
            if candidate > 0x7FF {
                (
                    Apu { channel1: Channel1 { channel_enable: false, ..c1 }, ..a },
                    with_nr52(b, b.io[0x26] & !0x01u8),
                )
            } else if step == 0 {
                (Apu { channel1: c1, ..a }, b)
            } else {
                let cand = candidate as u16;
                let b1 = BusView {
                    io: b.io.update(0x13, (cand & 0xFF) as u8).update(
                        0x14,
                        (b.io[0x14] & 0xF8) | ((cand >> 8u16) as u8 & 0x07),
                    ),
                    ..b
                };
                let c2 = Channel1 { shadow_period: cand, ..c1 };
                if sweep_next(nr10, cand) > 0x7FF {
                    (
                        Apu { channel1: Channel1 { channel_enable: false, ..c2 }, ..a },
                        with_nr52(b1, b1.io[0x26] & !0x01u8),
                    )
                } else {
                    (Apu { channel1: c2, ..a }, b1)
                }
            }
        }
    }
}

/// The length timers on the odd steps of the frame sequencer: an enabled
/// timer counts up to its limit (64, or 256 for channel 3) and, there,
/// disables its channel and clears its bit of NR52.
spec fn lengths(a: Apu, b: BusView) -> (Apu, BusView) {
    let (a1, b1) = lengths_low(a, b);
    lengths_high(a1, b1)
}

/// Whether the frame sequencer is on an odd step.
spec fn odd_step(a: Apu) -> bool {
    (a.dots / 8192) % 2 != 0
}

/// The length timers of channels 1 and 2.
#[verifier::opaque]
spec fn lengths_low(a: Apu, b: BusView) -> (Apu, BusView) {
    let odd = odd_step(a);
    let c1 = a.channel1;
    let t1 = if c1.timer_enable && odd && c1.timer < 64 {
        (c1.timer + 1) as u8
    } else {
        c1.timer
    };
    let off1 = c1.timer_enable && odd && t1 == 64;
    let b1 = if off1 {
        with_nr52(b, b.io[0x26] & !1u8)
    } else {
        b
    };
    let c2 = a.channel2;
    let t2 = if c2.timer_enable && odd && c2.timer < 64 {
        (c2.timer + 1) as u8
    } else {
        c2.timer
    };
    let off2 = c2.timer_enable && odd && t2 == 64;
    let b2 = if off2 {
        with_nr52(b1, b1.io[0x26] & !(1u8 << 1u8))
    } else {
        b1
    };
    (
        Apu {
            channel1: Channel1 { timer: t1, channel_enable: c1.channel_enable && !off1, ..c1 },
            channel2: Channel2 { timer: t2, channel_enable: c2.channel_enable && !off2, ..c2 },
            ..a
        },
        b2,
    )
}

/// The length timers of channels 3 and 4.
#[verifier::opaque]
spec fn lengths_high(a: Apu, b: BusView) -> (Apu, BusView) {
    let odd = odd_step(a);
    let c3 = a.channel3;
    let t3 = if c3.timer_enable && odd && c3.timer < 256 {
        (c3.timer + 1) as u16
    } else {
        c3.timer
    };
    let off3 = c3.timer_enable && odd && t3 == 256;
    let b3 = if off3 {
        with_nr52(b, b.io[0x26] & !(1u8 << 2u8))
    } else {
        b
    };
    let c4 = a.channel4;
    let t4 = if c4.timer_enable && odd && c4.timer < 64 {
        (c4.timer + 1) as u16
    } else {
        c4.timer
    };
    let off4 = c4.timer_enable && odd && t4 == 64;
    let b4 = if off4 {
        with_nr52(b3, b3.io[0x26] & !(1u8 << 3u8))
    } else {
        b3
    };
    (
        Apu {
            channel3: Channel3 { timer: t3, channel_enable: c3.channel_enable && !off3, ..c3 },
            channel4: Channel4 { timer: t4, channel_enable: c4.channel_enable && !off4, ..c4 },
            ..a
        },
        b4,
    )
}

/// The volume envelopes on step 7 of the frame sequencer: a channel with a
/// nonzero pace counts its pace timer and, when it reaches the pace,
/// restarts it and takes one envelope step.
#[verifier::opaque]
spec fn envelopes(a: Apu, r: SoundRegs) -> Apu {
    if a.frame_sequencer != 7 {
        a
    } else {
        let c1 = a.channel1;
        let c2 = a.channel2;
        let c4 = a.channel4;
        let e1 = envelope_clock(c1.sweep_pace, c1.sweep_pace_timer, c1.volune, r.nr12);
        let e2 = envelope_clock(c2.sweep_pace, c2.sweep_pace_timer, c2.volune, r.nr22);
        let e4 = envelope_clock(c4.sweep_pace, c4.sweep_pace_timer, c4.volune, r.nr42);
        Apu {
            channel1: Channel1 { sweep_pace_timer: e1.0, volune: e1.1, ..c1 },
            channel2: Channel2 { sweep_pace_timer: e2.0, volune: e2.1, ..c2 },
            channel4: Channel4 { sweep_pace_timer: e4.0, volune: e4.1, ..c4 },
            ..a
        }
    }
}

/// One envelope clock of a channel, as its pace timer and volume: with a
/// nonzero pace the timer counts up and, reaching the pace, restarts at 0
/// while the volume takes a step.
pub open spec fn envelope_clock(pace: u8, timer: u8, volume: u8, nrx2: u8) -> (u8, u8) {
    if pace == 0 {
        (timer, volume)
    } else if timer + 1 == pace {
        (0, envelope_step(nrx2, volume))
    } else {
        ((timer + 1) as u8, volume)
    }
}

/// The frame sequencer, every 8192 dots after the first: the sweep on its
/// steps 2 and 6, the length timers, the envelopes, then the next step.
spec fn frame_step(a: Apu, b: BusView, r: SoundRegs) -> (Apu, BusView) {
    if a.dots % 8192 == 0 && a.dots > 0 {
        let (a1, b1) = if a.frame_sequencer == 2 || a.frame_sequencer == 6 {
            sweep(a, b)
        } else {
            (a, b)
        };
        let (a2, b2) = lengths(a1, b1);
        let a3 = envelopes(a2, r);
        (Apu { frame_sequencer: ((a3.frame_sequencer + 1) % 8) as u8, ..a3 }, b2)
    } else {
        (a, b)
    }
}

/// Channels 1 and 2 are on only with their DACs on.
spec fn dacs_hold_low(a: Apu) -> bool {
    &&& a.channel1.channel_enable ==> a.channel1.dac_enable
    &&& a.channel2.channel_enable ==> a.channel2.dac_enable
}

/// Channels 3 and 4 are on only with their DACs on.
spec fn dacs_hold_high(a: Apu) -> bool {
    &&& a.channel3.channel_enable ==> a.channel3.dac_enable
    &&& a.channel4.channel_enable ==> a.channel4.dac_enable
}

/// Every channel is on only with its DAC on.
spec fn dacs_hold(a: Apu) -> bool {
    dacs_hold_low(a) && dacs_hold_high(a)
}

/// The inputs of one output sample.
#[verifier::opaque]
spec fn sample_of(a: Apu, r: SoundRegs) -> SampleInputs {
    let c1 = a.channel1;
    let c2 = a.channel2;
    let c3 = a.channel3;
    let c4 = a.channel4;
    SampleInputs {
        dac: [c1.dac_enable, c2.dac_enable, c3.dac_enable, c4.dac_enable],
        enabled: [c1.channel_enable, c2.channel_enable, c3.channel_enable, c4.channel_enable],
        level: [
            if (c1.wave_duty >> ((7 - c1.wave_duty_index) as u8)) % 2 == 1 {
                c1.volune
            } else {
                0
            },
            if (c2.wave_duty >> ((7 - c2.wave_duty_index) as u8)) % 2 == 1 {
                c2.volune
            } else {
                0
            },
            if c3.output_level == 0 {
                0
            } else if c3.output_level == 1 {
                c3.sample
            } else if c3.output_level == 2 {
                c3.sample >> 1u8
            } else {
                c3.sample >> 2u8
            },
            if c4.lfsr % 2 == 1 {
                c4.volune
            } else {
                0
            },
        ],
        nr50: r.nr50,
        nr51: r.nr51,
    }
}

/// One dot of the sound unit: the triggers and length-timer requests from
/// the queues, the DACs and duty patterns from the registers, the period
/// counters, the noise timer, the frame sequencer; a sample's inputs come
/// out at the output rate of 44100 per 4194304 dots.
pub closed spec fn tick(a: Apu, b: BusView, ev: EventsView) -> (Apu, BusView, EventsView, Option<
    SampleInputs,
>) {
    let r = regs_of(b);
    let (a1, b1) = triggers(a, b, r, ev);
    let a2 = timer_events(a1, ev);
    let (a3, b3) = dacs(a2, b1, r);
    let a4 = square_periods(patterns(a3, r), r);
    let a5 = wave_period(a4, b3, r);
    let a6 = noise(a5, r.nr43);
    let (a7, b7) = frame_step(a6, b3, r);
    let ticks = a7.channel_ticks + 44100;
    let (a8, out) = if ticks >= 4194304 {
        let a8 = Apu { channel_ticks: (ticks - 4194304) as u64, ..a7 };
        (a8, Some(sample_of(a8, r)))
    } else {
        (Apu { channel_ticks: ticks as u64, ..a7 }, None)
    };
    (Apu { dots: (a8.dots + 1) as u64, ..a8 }, b7, events_after(ev), out)
}

proof fn lemma_byte_fields(x: u8)
    by (bit_vector)
    ensures
        (x >> 4u8) <= 15,
        (x & 0x7) <= 7,
        (x & 0b1111) <= 15,
        ((x >> 5u8) & 0x3) <= 3,
        (x & 0x7) == x % 8,
        ((x >> 6u8) & 0x3) <= 3,
{
}

proof fn lemma_shift_down(x: u8)
    by (bit_vector)
    ensures
        x >> 1u8 <= x,
        x >> 2u8 <= x,
{
}

proof fn lemma_period_bits(h: u16, l: u16)
    by (bit_vector)
    requires
        h <= 7,
        l <= 255,
    ensures
        ((h << 8u16) | l) == h * 256 + l,
{
}

proof fn lemma_wrap_11(w: u16)
    by (bit_vector)
    ensures
        (w & 0x7FF) == w % 0x800,
{
}

proof fn lemma_sweep_change(x: u8, w: u16)
    by (bit_vector)
    ensures
        (w >> (x & 0x07u8)) <= w,
{
}

proof fn lemma_noise_shift(d: u32, sh: u8)
    by (bit_vector)
    requires
        8 <= d <= 112,
        sh < 16,
    ensures
        (d << sh) >= 8,
{
}

/// The first element of a queue, taken from it, or `current` where the
/// queue is empty.
fn pop_or<T>(q: &mut VecDeque<T>, current: T) -> (r: T)
    ensures
        r == (if old(q)@.len() > 0 {
            old(q)@[0]
        } else {
            current
        }),
        final(q)@ == drop_first(old(q)@),
{
    match q.pop_front() {
        Some(v) => v,
        None => current,
    }
}

/// As `pop_or`, for a queue of 8-bit timer values and a 16-bit timer.
fn pop_or_wide(q: &mut VecDeque<u8>, current: u16) -> (r: u16)
    ensures
        r == (if old(q)@.len() > 0 {
            old(q)@[0] as u16
        } else {
            current
        }),
        final(q)@ == drop_first(old(q)@),
{
    match q.pop_front() {
        Some(v) => u16::from(v),
        None => current,
    }
}

impl Apu {
    pub fn new() -> (a: Self)
        ensures
            a == Apu::initial(),
            a.wf(),
            a.can_tick(),
    {
        return Apu {
            channel1: Channel1 {
                channel_enable: false,
                dac_enable: false,
                timer_enable: false,
                timer: 0,
                wave_duty: 0,
                wave_duty_index: 0,
                volune: 0,
                sweep_pace: 0,
                sweep_pace_timer: 0,
                period: 0,
                shadow_period: 0,
                period_sweep_pace: 0,
                period_sweep_enable: false,
            },
            channel2: Channel2 {
                channel_enable: false,
                dac_enable: false,
                timer_enable: false,
                timer: 0,
                wave_duty: 0,
                wave_duty_index: 0,
                volune: 0,
                sweep_pace: 0,
                sweep_pace_timer: 0,
                period: 0,
            },
            channel3: Channel3 {
                channel_enable: false,
                dac_enable: false,
                timer_enable: false,
                timer: 0,
                output_level: 0,
                period: 0,
                sample_position: 0,
                sample: 0,
                sample_buffer: 0,
            },
            channel4: Channel4 {
                channel_enable: false,
                dac_enable: false,
                timer_enable: false,
                timer: 0,
                volune: 0,
                sweep_pace: 0,
                sweep_pace_timer: 0,
                lfsr: 0,
                noise_timer: 0,
            },
            dots: 0,
            channel_ticks: 0,
            frame_sequencer: 0,
        };
    }

    /// Whether the dot counter has room for one more dot.
    pub fn has_room(&self) -> (r: bool)
        ensures
            r == self.can_tick(),
    {
        self.dots < u64::MAX
    }

    fn read_regs(bus: &mut Bus) -> (r: SoundRegs)
        requires
            old(bus)@.wf(),
        ensures
            final(bus)@ == old(bus)@,
            r == regs_of(old(bus)@),
    {
        SoundRegs {
            nr10: bus.read(0xFF10),
            nr11: bus.read(0xFF11),
            nr12: bus.read(0xFF12),
            nr13: bus.read(0xFF13),
            nr14: bus.read(0xFF14),
            nr21: bus.read(0xFF16),
            nr22: bus.read(0xFF17),
            nr23: bus.read(0xFF18),
            nr24: bus.read(0xFF19),
            nr30: bus.read(0xFF1A),
            nr32: bus.read(0xFF1C),
            nr33: bus.read(0xFF1D),
            nr34: bus.read(0xFF1E),
            nr42: bus.read(0xFF21),
            nr43: bus.read(0xFF22),
            nr50: bus.read(0xFF24),
            nr51: bus.read(0xFF25),
        }
    }

    /// Writes `value` to NR52.
    fn set_nr52(bus: &mut Bus, value: u8)
        requires
            old(bus)@.wf(),
        ensures
            final(bus)@.wf(),
            final(bus)@ == with_nr52(old(bus)@, value),
    {
        bus.write(0xFF26, value);
    }

    fn period_from(low: u8, high: u8) -> (p: u16)
        ensures
            p == period_of(low, high),
            p <= 0x7FF,
    {
        let period_low = u16::from(low);
        let period_high = u16::from(high & 0x7);
        proof {
            lemma_byte_fields(high);
            lemma_period_bits(period_high, period_low);
        }
        (period_high << 8u16) | period_low
    }

    fn trigger1(&mut self, regs: &SoundRegs, bus: &mut Bus)
        requires
            old(bus)@.wf(),
            old(self).wf(),
        ensures
            final(bus)@.wf(),
            final(self).wf(),
            (*final(self), final(bus)@) == trigger1(*old(self), old(bus)@, *regs),
    {
        proof {
            lemma_byte_fields(regs.nr12);
            lemma_byte_fields(regs.nr10);
        }
        self.channel1.channel_enable = true;
        let curr_nr52 = bus.read(0xFF26);
        Self::set_nr52(bus, curr_nr52 | 1);
        self.channel1.period = Self::period_from(regs.nr13, regs.nr14);
        if self.channel1.timer == 64 {
            self.channel1.timer = 0;
        }
        self.channel1.volune = regs.nr12 >> 4u8;
        self.channel1.sweep_pace = regs.nr12 & 0x7;
        self.channel1.sweep_pace_timer = 0;
        self.channel1.shadow_period = Self::period_from(regs.nr13, regs.nr14);
        self.channel1.period_sweep_pace = if (regs.nr10 >> 4u8) & 0x7 > 0 {
            (regs.nr10 >> 4u8) & 0x7
        } else {
            8
        };
        self.channel1.period_sweep_enable = ((regs.nr10 >> 4u8) & 0x7 > 0) || (regs.nr10 & 0x7 > 0);
        if regs.nr10 & 0x7 > 0 {
            let shadow = self.channel1.shadow_period;
            proof {
                lemma_sweep_change(regs.nr10, shadow);
            }
            let change = shadow >> (regs.nr10 & 0x7);
            if (regs.nr10 >> 3u8) & 1 == 0 {
                if shadow + change > 0x7FF {
                    self.channel1.channel_enable = false;
                    let curr_nr52 = bus.read(0xFF26);
                    Self::set_nr52(bus, curr_nr52 & !1u8);
                }
            } else {
                if shadow - change > 0x7FF {
                    self.channel1.channel_enable = false;
                    let curr_nr52 = bus.read(0xFF26);
                    Self::set_nr52(bus, curr_nr52 & !1u8);
                }
            }
        }
    }

    fn trigger2(&mut self, regs: &SoundRegs, bus: &mut Bus)
        requires
            old(bus)@.wf(),
            old(self).wf(),
        ensures
            final(bus)@.wf(),
            final(self).wf(),
            (*final(self), final(bus)@) == trigger2(*old(self), old(bus)@, *regs),
    {
        proof {
            lemma_byte_fields(regs.nr22);
        }
        self.channel2.channel_enable = true;
        let curr_nr52 = bus.read(0xFF26);
        Self::set_nr52(bus, curr_nr52 | 2);
        if self.channel2.timer == 64 {
            self.channel2.timer = 0;
        }
        self.channel2.period = Self::period_from(regs.nr23, regs.nr24);
        self.channel2.volune = regs.nr22 >> 4u8;
        self.channel2.sweep_pace = regs.nr22 & 0x7;
        self.channel2.sweep_pace_timer = 0;
    }

    fn trigger3(&mut self, regs: &SoundRegs, bus: &mut Bus)
        requires
            old(bus)@.wf(),
            old(self).wf(),
        ensures
            final(bus)@.wf(),
            final(self).wf(),
            (*final(self), final(bus)@) == trigger3(*old(self), old(bus)@, *regs),
    {
        self.channel3.sample_position = 0;
        self.channel3.channel_enable = true;
        let curr_nr52 = bus.read(0xFF26);
        Self::set_nr52(bus, curr_nr52 | (1u8 << 2u8));
        if self.channel3.timer == 256 {
            self.channel3.timer = 0;
        }
        self.channel3.period = Self::period_from(regs.nr33, regs.nr34);
    }

    fn noise_divisor(nr43: u8) -> (d: u32)
        ensures
            d == noise_period(nr43),
            (nr43 >> 4u8) < 14 ==> d >= 1,
    {
        let clock_divider = u32::from(nr43 & 0x7);
        proof {
            lemma_byte_fields(nr43);
        }
        let divisor: u32 = if clock_divider == 0 {
            8
        } else {
            16 * clock_divider
        };
        proof {
            lemma_noise_shift(divisor, nr43 >> 4u8);
        }
        divisor << (nr43 >> 4u8)
    }

    fn trigger4(&mut self, regs: &SoundRegs, bus: &mut Bus)
        requires
            old(bus)@.wf(),
            old(self).wf(),
        ensures
            final(bus)@.wf(),
            final(self).wf(),
            (*final(self), final(bus)@) == trigger4(*old(self), old(bus)@, *regs),
    {
        proof {
            lemma_byte_fields(regs.nr42);
        }
        self.channel4.channel_enable = true;
        let curr_nr52 = bus.read(0xFF26);
        Self::set_nr52(bus, curr_nr52 | (1u8 << 3u8));
        if self.channel4.timer == 64 {
            self.channel4.timer = 0;
        }
        self.channel4.volune = regs.nr42 >> 4u8;
        self.channel4.sweep_pace = regs.nr42 & 0x7;
        self.channel4.sweep_pace_timer = 0;
        self.channel4.lfsr = 0;
        self.channel4.noise_timer = Self::noise_divisor(regs.nr43);
    }

    /// Takes the first trigger of each channel's queue and carries it out.
    #[verifier::rlimit(40)]
    fn take_triggers(&mut self, regs: &SoundRegs, bus: &mut Bus, events: &mut ApuEvents)
        requires
            old(bus)@.wf(),
            old(self).wf(),
        ensures
            final(self).dots == old(self).dots,
            final(bus)@.wf(),
            final(self).wf(),
            (*final(self), final(bus)@) == triggers(*old(self), old(bus)@, *regs, old(events)@),
            final(events)@ == (EventsView {
                triggers: drop_firsts(old(events)@.triggers),
                ..old(events)@
            }),
    {
        proof {
            reveal(triggers);
        }
        let ghost ev = events@;
        if let Some(_element) = events.channel1_triggers.pop_front() {
            self.trigger1(regs, bus);
        }
        if let Some(_element) = events.channel2_triggers.pop_front() {
            self.trigger2(regs, bus);
        }
        if let Some(_element) = events.channel3_triggers.pop_front() {
            self.trigger3(regs, bus);
        }
        if let Some(_element) = events.channel4_triggers.pop_front() {
            self.trigger4(regs, bus);
        }
        proof {
            assert(events@.triggers =~= drop_firsts(ev.triggers));
            assert(events@.timer_triggers =~= ev.timer_triggers);
            assert(events@.timer_values =~= ev.timer_values);
        }
    }

    /// Takes the first length-timer enable bit of each channel's queue.
    #[verifier::rlimit(40)]
    fn take_timer_enables(&mut self, events: &mut ApuEvents)
        requires
            old(self).wf(),
        ensures
            final(self).dots == old(self).dots,
            final(self).wf(),
            *final(self) == timer_enables(*old(self), old(events)@.timer_triggers),
            final(events)@ == (EventsView {
                timer_triggers: drop_firsts(old(events)@.timer_triggers),
                ..old(events)@
            }),
    {
        proof {
            reveal(timer_enables);
        }
        let ghost ev = events@;
        self.channel1.timer_enable = pop_or(&mut events.channel1_timer_triggers, self.channel1.timer_enable);
        self.channel2.timer_enable = pop_or(&mut events.channel2_timer_triggers, self.channel2.timer_enable);
        self.channel3.timer_enable = pop_or(&mut events.channel3_timer_triggers, self.channel3.timer_enable);
        self.channel4.timer_enable = pop_or(&mut events.channel4_timer_triggers, self.channel4.timer_enable);
        proof {
            assert(events@.triggers =~= ev.triggers);
            assert(events@.timer_triggers =~= drop_firsts(ev.timer_triggers));
            assert(events@.timer_values =~= ev.timer_values);
        }
    }

    /// Takes the first length-timer value of each channel's queue.
    #[verifier::rlimit(40)]
    fn take_timer_values(&mut self, events: &mut ApuEvents)
        requires
            old(self).wf(),
        ensures
            final(self).dots == old(self).dots,
            final(self).wf(),
            *final(self) == timer_values(*old(self), old(events)@.timer_values),
            final(events)@ == (EventsView {
                timer_values: drop_firsts(old(events)@.timer_values),
                ..old(events)@
            }),
    {
        proof {
            reveal(timer_values);
        }
        let ghost ev = events@;
        self.channel1.timer = pop_or(&mut events.channel1_timer_values, self.channel1.timer);
        self.channel2.timer = pop_or(&mut events.channel2_timer_values, self.channel2.timer);
        self.channel3.timer = pop_or_wide(&mut events.channel3_timer_values, self.channel3.timer);
        self.channel4.timer = pop_or_wide(&mut events.channel4_timer_values, self.channel4.timer);
        proof {
            assert(events@.triggers =~= ev.triggers);
            assert(events@.timer_triggers =~= ev.timer_triggers);
            assert(events@.timer_values =~= drop_firsts(ev.timer_values));
        }
    }

    /// The DAC bits of channels 1 and 2 from their registers; a channel
    /// whose DAC is off is disabled.
    fn update_dacs_low(&mut self, regs: &SoundRegs, bus: &mut Bus)
        requires
            old(bus)@.wf(),
            old(self).wf(),
        ensures
            dacs_hold_low(*final(self)),
            final(self).dots == old(self).dots,
            final(bus)@.wf(),
            final(self).wf(),
            (*final(self), final(bus)@) == dacs_low(*old(self), old(bus)@, *regs),
    {
        proof {
            reveal(dacs_low);
        }
        self.channel1.dac_enable = (regs.nr12) & 0xF8 != 0;
        if self.channel1.dac_enable == false {
            self.channel1.channel_enable = false;
            let curr_nr52 = bus.read(0xFF26);
            Self::set_nr52(bus, curr_nr52 & !1u8);
        }
        self.channel2.dac_enable = (regs.nr22) & 0xF8 != 0;
        if self.channel2.dac_enable == false {
            self.channel2.channel_enable = false;
            let curr_nr52 = bus.read(0xFF26);
            Self::set_nr52(bus, curr_nr52 & !(1u8 << 1u8));
        }
    }

    /// The DAC bits of channels 3 and 4.
    fn update_dacs_high(&mut self, regs: &SoundRegs, bus: &mut Bus)
        requires
            old(bus)@.wf(),
            old(self).wf(),
        ensures
            dacs_hold_low(*old(self)) ==> dacs_hold(*final(self)),
            final(self).dots == old(self).dots,
            final(bus)@.wf(),
            final(self).wf(),
            (*final(self), final(bus)@) == dacs_high(*old(self), old(bus)@, *regs),
    {
        proof {
            reveal(dacs_high);
        }
        self.channel3.dac_enable = (regs.nr30) >> 7u8 != 0;
        if self.channel3.dac_enable == false {
            self.channel3.channel_enable = false;
            let curr_nr52 = bus.read(0xFF26);
            Self::set_nr52(bus, curr_nr52 & !(1u8 << 2u8));
        }
        self.channel4.dac_enable = (regs.nr42) & 0xF8 != 0;
        if self.channel4.dac_enable == false {
            self.channel4.channel_enable = false;
            let curr_nr52 = bus.read(0xFF26);
            Self::set_nr52(bus, curr_nr52 & !(1u8 << 3u8));
        }
    }

    /// The duty patterns and the wave channel's output level.
    fn update_patterns(&mut self, regs: &SoundRegs)
        requires
            old(self).wf(),
        ensures
            dacs_hold(*old(self)) ==> dacs_hold(*final(self)),
            final(self).dots == old(self).dots,
            final(self).wf(),
            *final(self) == patterns(*old(self), *regs),
    {
        proof {
            reveal(patterns);
        }
        proof {
            lemma_byte_fields(regs.nr32);
        }
        self.channel1.wave_duty = Self::duty(regs.nr11);
        self.channel2.wave_duty = Self::duty(regs.nr21);
        self.channel3.output_level = (regs.nr32 >> 5u8) & 0x3;
    }

    fn duty(nrx1: u8) -> (d: u8)
        ensures
            d == duty_pattern(nrx1),
    {
        match (nrx1 >> 6u8) & 0x3 {
            0 => 0b00000001,
            1 => 0b10000001,
            2 => 0b10000111,
            _ => 0b01111110,
        }
    }

    /// The period counters of the square channels.
    fn clock_squares(&mut self, regs: &SoundRegs)
        requires
            old(self).wf(),
        ensures
            dacs_hold(*old(self)) ==> dacs_hold(*final(self)),
            final(self).dots == old(self).dots,
            final(self).wf(),
            *final(self) == square_periods(*old(self), *regs),
    {
        proof {
            reveal(square_periods);
        }
        if self.dots % 4 == 0 && self.dots > 0 {
            proof {
                lemma_wrap_11((self.channel1.period + 1) as u16);
            }
            self.channel1.period = (self.channel1.period + 1) & 0x7FF;
            if self.channel1.period == 0 {
                self.channel1.period = Self::period_from(regs.nr13, regs.nr14);
                proof {
                    lemma_byte_fields((self.channel1.wave_duty_index + 1) as u8);
                }
                self.channel1.wave_duty_index = (self.channel1.wave_duty_index + 1) & 0x7;
            }
            proof {
                lemma_wrap_11((self.channel2.period + 1) as u16);
            }
            self.channel2.period = (self.channel2.period + 1) & 0x7FF;
            if self.channel2.period == 0 {
                self.channel2.period = Self::period_from(regs.nr23, regs.nr24);
                proof {
                    lemma_byte_fields((self.channel2.wave_duty_index + 1) as u8);
                }
                self.channel2.wave_duty_index = (self.channel2.wave_duty_index + 1) & 0x7;
            }
        }
    }

    /// The wave channel's period counter and sample fetch.
    fn clock_wave(&mut self, regs: &SoundRegs, bus: &mut Bus)
        requires
            old(bus)@.wf(),
            old(self).wf(),
        ensures
            dacs_hold(*old(self)) ==> dacs_hold(*final(self)),
            final(self).dots == old(self).dots,
            final(bus)@ == old(bus)@,
            final(self).wf(),
            *final(self) == wave_period(*old(self), old(bus)@, *regs),
    {
        proof {
            reveal(wave_period);
        }
        if self.dots % 2 == 0 && self.dots > 0 {
            proof {
                lemma_wrap_11((self.channel3.period + 1) as u16);
            }
            self.channel3.period = (self.channel3.period + 1) & 0x7FF;
            if self.channel3.period == 0 {
                self.channel3.period = Self::period_from(regs.nr33, regs.nr34);
                if self.channel3.channel_enable == true {
                    self.channel3.sample_position += 1;
                    if self.channel3.sample_position == 32 {
                        self.channel3.sample_position = 0;
                    }
                    self.channel3.sample_buffer = self.channel3.sample;
                    let sample_whole = bus.read(
                        0xFF30 + (u16::from(self.channel3.sample_position / 2)),
                    );
                    proof {
                        lemma_byte_fields(sample_whole);
                    }
                    self.channel3.sample = match self.channel3.sample_position % 2 {
                        0 => sample_whole >> 4u8,
                        _ => sample_whole & 0b1111,
                    };
                }
            }
        }
    }

    /// The noise channel's timer and shift register.
    fn clock_noise(&mut self, nr43: u8)
        requires
            old(self).wf(),
        ensures
            dacs_hold(*old(self)) ==> dacs_hold(*final(self)),
            final(self).dots == old(self).dots,
            final(self).wf(),
            *final(self) == noise(*old(self), nr43),
    {
        proof {
            reveal(noise);
        }
        if self.channel4.channel_enable == true && nr43 >> 4u8 < 14 {
            let divisor = Self::noise_divisor(nr43);
            if self.channel4.noise_timer == 0 {
                self.channel4.noise_timer = divisor;
            }
            self.channel4.noise_timer -= 1;
            if self.channel4.noise_timer == 0 {
                let lfsr = self.channel4.lfsr;
                let feedback = !(lfsr ^ (lfsr >> 1u16)) & 1;
                self.channel4.lfsr = (lfsr >> 1u16) | (feedback << 14u16);
                if nr43 & 0x08 != 0 {
                    self.channel4.lfsr = (self.channel4.lfsr & !(1u16 << 6u16)) | (feedback << 6u16);
                }
            }
        }
    }

    /// The sweep's next period.
    fn sweep_calculate(nr10: u8, period: u16) -> (r: u16)
        requires
            period <= 0x7FF,
        ensures
            r == sweep_next(nr10, period),
    {
        proof {
            lemma_byte_fields(nr10);
            lemma_sweep_change(nr10, period);
        }
        let step = nr10 & 0x07;
        let change = period >> step;
        if nr10 & 0x08 == 0 {
            period + change
        } else {
            period - change
        }
    }

    #[verifier::rlimit(80)]
    fn clock_channel1_sweep(&mut self, bus: &mut Bus)
        requires
            old(bus)@.wf(),
            old(self).wf(),
        ensures
            dacs_hold(*old(self)) ==> dacs_hold(*final(self)),
            final(self).dots == old(self).dots,
            final(bus)@.wf(),
            final(self).wf(),
            (*final(self), final(bus)@) == sweep(*old(self), old(bus)@),
    {
        proof {
            reveal(sweep);
        }
        if self.channel1.period_sweep_pace == 0 {
            return;
        }
        self.channel1.period_sweep_pace -= 1;
        if self.channel1.period_sweep_pace != 0 {
            return;
        }
        let nr10 = bus.io_regs[0x10];
        let pace = (nr10 >> 4u8) & 0x07;
        let step = nr10 & 0x07;
        self.channel1.period_sweep_pace = if pace == 0 {
            8
        } else {
            pace
        };
        if !self.channel1.period_sweep_enable || pace == 0 {
            return;
        }
        let candidate = Self::sweep_calculate(nr10, self.channel1.shadow_period);
        if candidate > 0x7FF {
            self.channel1.channel_enable = false;
            bus.io_regs[0x26] = bus.io_regs[0x26] & !0x01u8;
            return;
        }
        if step == 0 {
            return;
        }
        self.channel1.shadow_period = candidate;
        bus.io_regs[0x13] = (candidate & 0xFF) as u8;
        bus.io_regs[0x14] = (bus.io_regs[0x14] & 0xF8) | ((candidate >> 8u16) as u8 & 0x07);
        if Self::sweep_calculate(nr10, candidate) > 0x7FF {
            self.channel1.channel_enable = false;
            bus.io_regs[0x26] = bus.io_regs[0x26] & !0x01u8;
        }
    }

    /// The length timers of channels 1 and 2.
    fn clock_lengths_low(&mut self, bus: &mut Bus)
        requires
            old(bus)@.wf(),
            old(self).wf(),
        ensures
            dacs_hold(*old(self)) ==> dacs_hold(*final(self)),
            final(self).dots == old(self).dots,
            final(bus)@.wf(),
            final(self).wf(),
            (*final(self), final(bus)@) == lengths_low(*old(self), old(bus)@),
    {
        proof {
            reveal(lengths_low);
        }
        let odd = (self.dots / 8192) % 2 != 0;
        if self.channel1.timer_enable == true && odd {
            if self.channel1.timer < 64 {
                self.channel1.timer += 1;
            }
            if self.channel1.timer == 64 {
                self.channel1.channel_enable = false;
                let curr_nr52 = bus.read(0xFF26);
                Self::set_nr52(bus, curr_nr52 & !1u8);
            }
        }
        if self.channel2.timer_enable == true && odd {
            if self.channel2.timer < 64 {
                self.channel2.timer += 1;
            }
            if self.channel2.timer == 64 {
                self.channel2.channel_enable = false;
                let curr_nr52 = bus.read(0xFF26);
                Self::set_nr52(bus, curr_nr52 & !(1u8 << 1u8));
            }
        }
    }

    /// The length timers of channels 3 and 4.
    fn clock_lengths_high(&mut self, bus: &mut Bus)
        requires
            old(bus)@.wf(),
            old(self).wf(),
        ensures
            dacs_hold(*old(self)) ==> dacs_hold(*final(self)),
            final(self).dots == old(self).dots,
            final(bus)@.wf(),
            final(self).wf(),
            (*final(self), final(bus)@) == lengths_high(*old(self), old(bus)@),
    {
        proof {
            reveal(lengths_high);
        }
        let odd = (self.dots / 8192) % 2 != 0;
        if self.channel3.timer_enable == true && odd {
            if self.channel3.timer < 256 {
                self.channel3.timer += 1;
            }
            if self.channel3.timer == 256 {
                self.channel3.channel_enable = false;
                let curr_nr52 = bus.read(0xFF26);
                Self::set_nr52(bus, curr_nr52 & !(1u8 << 2u8));
            }
        }
        if self.channel4.timer_enable == true && odd {
            if self.channel4.timer < 64 {
                self.channel4.timer += 1;
            }
            if self.channel4.timer == 64 {
                self.channel4.channel_enable = false;
                let curr_nr52 = bus.read(0xFF26);
                Self::set_nr52(bus, curr_nr52 & !(1u8 << 3u8));
            }
        }
    }

    fn envelope(nrx2: u8, volume: u8) -> (v: u8)
        requires
            volume <= 15,
        ensures
            v == envelope_step(nrx2, volume),
            v <= 15,
    {
        if (nrx2 >> 3u8) & 1 == 0 {
            volume.saturating_sub(1)
        } else if volume < 15 {
            volume + 1
        } else {
            volume
        }
    }

    fn clock_envelope(pace: u8, timer: u8, volume: u8, nrx2: u8) -> (r: (u8, u8))
        requires
            pace <= 7,
            pace == 0 || timer < pace,
            volume <= 15,
        ensures
            r == envelope_clock(pace, timer, volume, nrx2),
            pace == 0 || r.0 < pace,
            r.0 <= 7 || r.0 == timer,
            r.1 <= 15,
    {
        if pace == 0 {
            (timer, volume)
        } else if timer + 1 == pace {
            (0, Self::envelope(nrx2, volume))
        } else {
            (timer + 1, volume)
        }
    }

    /// The volume envelopes.
    fn clock_envelopes(&mut self, regs: &SoundRegs)
        requires
            old(self).wf(),
        ensures
            dacs_hold(*old(self)) ==> dacs_hold(*final(self)),
            final(self).dots == old(self).dots,
            final(self).wf(),
            *final(self) == envelopes(*old(self), *regs),
    {
        proof {
            reveal(envelopes);
        }
        if self.frame_sequencer != 7 {
            return;
        }
        let (t1, v1) = Self::clock_envelope(
            self.channel1.sweep_pace,
            self.channel1.sweep_pace_timer,
            self.channel1.volune,
            regs.nr12,
        );
        self.channel1.sweep_pace_timer = t1;
        self.channel1.volune = v1;
        let (t2, v2) = Self::clock_envelope(
            self.channel2.sweep_pace,
            self.channel2.sweep_pace_timer,
            self.channel2.volune,
            regs.nr22,
        );
        self.channel2.sweep_pace_timer = t2;
        self.channel2.volune = v2;
        let (t4, v4) = Self::clock_envelope(
            self.channel4.sweep_pace,
            self.channel4.sweep_pace_timer,
            self.channel4.volune,
            regs.nr42,
        );
        self.channel4.sweep_pace_timer = t4;
        self.channel4.volune = v4;
    }

    /// The frame sequencer, every 8192 dots after the first.
    fn clock_frame(&mut self, regs: &SoundRegs, bus: &mut Bus)
        requires
            old(bus)@.wf(),
            old(self).wf(),
        ensures
            dacs_hold(*old(self)) ==> dacs_hold(*final(self)),
            final(self).dots == old(self).dots,
            final(bus)@.wf(),
            final(self).wf(),
            (*final(self), final(bus)@) == frame_step(*old(self), old(bus)@, *regs),
    {
        if self.dots % 8192 == 0 && self.dots > 0 {
            if self.frame_sequencer == 2 || self.frame_sequencer == 6 {
                self.clock_channel1_sweep(bus);
            }
            self.clock_lengths_low(bus);
            self.clock_lengths_high(bus);
            self.clock_envelopes(regs);
            proof {
                lemma_byte_fields((self.frame_sequencer + 1) as u8);
            }
            self.frame_sequencer = (self.frame_sequencer + 1) & 0x7;
        }
    }

    /// The inputs of one output sample.
    fn sample(&self, regs: &SoundRegs) -> (s: SampleInputs)
        requires
            self.wf(),
        ensures
            dacs_hold(*self) ==> forall|i: int| 0 <= i < 4 ==> (s.enabled@[i] ==> s.dac@[i]),
            forall|i: int| 0 <= i < 4 ==> s.level@[i] <= 15,
            s == sample_of(*self, *regs),
    {
        proof {
            reveal(sample_of);
        }
        let c1 = &self.channel1;
        let c2 = &self.channel2;
        let c3 = &self.channel3;
        let c4 = &self.channel4;
        let level1 = if (c1.wave_duty >> (7 - c1.wave_duty_index)) % 2 == 1 {
            c1.volune
        } else {
            0
        };
        let level2 = if (c2.wave_duty >> (7 - c2.wave_duty_index)) % 2 == 1 {
            c2.volune
        } else {
            0
        };
        let level4 = if c4.lfsr % 2 == 1 {
            c4.volune
        } else {
            0
        };
        proof {
            lemma_shift_down(c3.sample);
        }
        let level3 = match c3.output_level {
            0 => 0,
            1 => c3.sample,
            2 => c3.sample >> 1u8,
            _ => c3.sample >> 2u8,
        };
        SampleInputs {
            dac: [c1.dac_enable, c2.dac_enable, c3.dac_enable, c4.dac_enable],
            enabled: [c1.channel_enable, c2.channel_enable, c3.channel_enable, c4.channel_enable],
            level: [level1, level2, level3, level4],
            nr50: regs.nr50,
            nr51: regs.nr51,
        }
    }

    /// One dot of the sound unit: `tick` of the unit, the bus and the
    /// queues of requests. Where a sample falls due, its inputs come back.
    #[verifier::rlimit(40)]
    pub fn buffer(&mut self, bus: &mut Bus, events: &mut ApuEvents) -> (out: Option<
        SampleInputs,
    >)
        requires
            old(self).wf(),
            old(self).can_tick(),
            old(bus)@.wf(),
        ensures
            final(self).wf(),
            final(bus)@.wf(),
            (*final(self), final(bus)@, final(events)@, out) == tick(
                *old(self),
                old(bus)@,
                old(events)@,
            ),
            out matches Some(s) ==> forall|i: int|
                0 <= i < 4 ==> (s.enabled@[i] ==> s.dac@[i]) && s.level@[i] <= 15,
    {
        let regs = Self::read_regs(bus);
        self.take_triggers(&regs, bus, events);
        self.take_timer_enables(events);
        self.take_timer_values(events);
        self.update_dacs_low(&regs, bus);
        self.update_dacs_high(&regs, bus);
        self.update_patterns(&regs);
        self.clock_squares(&regs);
        self.clock_wave(&regs, bus);
        self.clock_noise(regs.nr43);
        self.clock_frame(&regs, bus);
        self.channel_ticks += 44100;
        let out = if self.channel_ticks >= 4194304 {
            self.channel_ticks -= 4194304;
            Some(self.sample(&regs))
        } else {
            None
        };
        self.dots += 1;
        out
    }
}

/// Every dot moves the output on by 44100 of 4194304 parts of a sample
/// period, and a sample falls due exactly when a whole period is complete:
/// 44100 samples for every 4194304 dots.
pub proof fn lemma_sample_rate(a: Apu, b: BusView, ev: EventsView)
    requires
        a.wf(),
    ensures
        tick(a, b, ev).3 is Some <==> a.sample_phase() + 44100 >= 4194304,
        tick(a, b, ev).0.sample_phase() == (a.sample_phase() + 44100) % 4194304,
{
    reveal(triggers);
    reveal(timer_enables);
    reveal(timer_values);
    reveal(dacs_low);
    reveal(dacs_high);
    reveal(patterns);
    reveal(square_periods);
    reveal(wave_period);
    reveal(noise);
    reveal(sweep);
    reveal(lengths_low);
    reveal(lengths_high);
    reveal(envelopes);
}

/// The bounds that every state of the unit keeps, which `new` and
/// `buffer` ensure: the frame sequencer below 8, volumes at most 15, duty
/// steps below 8, the wave position below 32 and its sample at most 15, and
/// the output phase below one sample period.
pub proof fn lemma_wf_bounds(a: Apu)
    requires
        a.wf(),
    ensures
        a.frame_step() < 8,
        a.volume(1) <= 15 && a.volume(2) <= 15 && a.volume(4) <= 15,
        a.duty_step(1) < 8 && a.duty_step(2) < 8,
        a.wave_position() < 32,
        a.wave_sample() <= 15,
        a.sample_phase() < 4194304,
{
}

proof fn lemma_nr52_bits()
    by (bit_vector)
    ensures
        forall|x: u8|
            #![trigger x & !1u8]
            (x & !1u8) & 1u8 == 0 && (x & 2u8 == 0 ==> (x & !1u8) & 2u8 == 0) && (x & 4u8 == 0
                ==> (x & !1u8) & 4u8 == 0) && (x & 8u8 == 0 ==> (x & !1u8) & 8u8 == 0),
        forall|x: u8|
            #![trigger x & !(1u8 << 1u8)]
            (x & !(1u8 << 1u8)) & 2u8 == 0 && (x & 1u8 == 0 ==> (x & !(1u8 << 1u8)) & 1u8 == 0) && (x
                & 4u8 == 0 ==> (x & !(1u8 << 1u8)) & 4u8 == 0) && (x & 8u8 == 0 ==> (x & !(1u8
                << 1u8)) & 8u8 == 0),
        forall|x: u8|
            #![trigger x & !(1u8 << 2u8)]
            (x & !(1u8 << 2u8)) & 4u8 == 0 && (x & 1u8 == 0 ==> (x & !(1u8 << 2u8)) & 1u8 == 0) && (x
                & 2u8 == 0 ==> (x & !(1u8 << 2u8)) & 2u8 == 0) && (x & 8u8 == 0 ==> (x & !(1u8
                << 2u8)) & 8u8 == 0),
        forall|x: u8|
            #![trigger x & !(1u8 << 3u8)]
            (x & !(1u8 << 3u8)) & 8u8 == 0 && (x & 1u8 == 0 ==> (x & !(1u8 << 3u8)) & 1u8 == 0) && (x
                & 2u8 == 0 ==> (x & !(1u8 << 3u8)) & 2u8 == 0) && (x & 4u8 == 0 ==> (x & !(1u8
                << 3u8)) & 4u8 == 0),
{
}

/// The bit of NR52 that reports channel `ch` (1..=4).
pub open spec fn nr52_mask(ch: int) -> u8 {
    if ch == 1 {
        1
    } else if ch == 2 {
        2
    } else if ch == 3 {
        4
    } else {
        8
    }
}

/// The bit of NR52 that reports channel `ch` is clear.
pub open spec fn nr52_clear(b: BusView, ch: int) -> bool {
    b.io[0x26] & nr52_mask(ch) == 0
}

/// Every channel whose DAC is off is disabled with its bit of NR52 clear.
spec fn dac_off_holds(a: Apu, b: BusView) -> bool {
    &&& !a.channel1.dac_enable ==> !a.channel1.channel_enable && b.io[0x26] & 1u8 == 0
    &&& !a.channel2.dac_enable ==> !a.channel2.channel_enable && b.io[0x26] & 2u8 == 0
    &&& !a.channel3.dac_enable ==> !a.channel3.channel_enable && b.io[0x26] & 4u8 == 0
    &&& !a.channel4.dac_enable ==> !a.channel4.channel_enable && b.io[0x26] & 8u8 == 0
}

/// The DACs and channel bits as a state holds them.
spec fn same_dacs(a: Apu, a2: Apu) -> bool {
    &&& a2.channel1.dac_enable == a.channel1.dac_enable
    &&& a2.channel2.dac_enable == a.channel2.dac_enable
    &&& a2.channel3.dac_enable == a.channel3.dac_enable
    &&& a2.channel4.dac_enable == a.channel4.dac_enable
    &&& a2.channel1.channel_enable ==> a.channel1.channel_enable
    &&& a2.channel2.channel_enable ==> a.channel2.channel_enable
    &&& a2.channel3.channel_enable ==> a.channel3.channel_enable
    &&& a2.channel4.channel_enable ==> a.channel4.channel_enable
}

proof fn lemma_dacs_establish(a: Apu, b: BusView, r: SoundRegs)
    requires
        b.sized(),
    ensures
        dac_off_holds(dacs(a, b, r).0, dacs(a, b, r).1),
        dacs(a, b, r).1.sized(),
        dacs(a, b, r).0.channel1.dac_enable == (r.nr12 & 0xF8 != 0),
        dacs(a, b, r).0.channel2.dac_enable == (r.nr22 & 0xF8 != 0),
        dacs(a, b, r).0.channel3.dac_enable == (r.nr30 >> 7u8 != 0),
        dacs(a, b, r).0.channel4.dac_enable == (r.nr42 & 0xF8 != 0),
{
    reveal(dacs_low);
    reveal(dacs_high);
    lemma_nr52_bits();
}

proof fn lemma_middle_keeps(a: Apu, b: BusView, r: SoundRegs)
    ensures
        same_dacs(a, noise(wave_period(square_periods(patterns(a, r), r), b, r), r.nr43)),
{
    reveal(patterns);
    reveal(square_periods);
    reveal(wave_period);
    reveal(noise);
}

proof fn lemma_sweep_keeps(a: Apu, b: BusView)
    requires
        b.sized(),
        dac_off_holds(a, b),
    ensures
        same_dacs(a, sweep(a, b).0),
        dac_off_holds(sweep(a, b).0, sweep(a, b).1),
        sweep(a, b).1.sized(),
{
    reveal(sweep);
    lemma_nr52_bits();
}

proof fn lemma_lengths_keep(a: Apu, b: BusView)
    requires
        b.sized(),
        dac_off_holds(a, b),
    ensures
        same_dacs(a, lengths(a, b).0),
        dac_off_holds(lengths(a, b).0, lengths(a, b).1),
{
    reveal(lengths_low);
    reveal(lengths_high);
    lemma_nr52_bits();
}

proof fn lemma_envelopes_keep(a: Apu, r: SoundRegs)
    ensures
        same_dacs(a, envelopes(a, r)),
{
    reveal(envelopes);
}

proof fn lemma_frame_keeps(a: Apu, b: BusView, r: SoundRegs)
    requires
        b.sized(),
        dac_off_holds(a, b),
    ensures
        same_dacs(a, frame_step(a, b, r).0),
        dac_off_holds(frame_step(a, b, r).0, frame_step(a, b, r).1),
{
    if a.dots % 8192 == 0 && a.dots > 0 {
        let (a1, b1) = if a.frame_sequencer == 2 || a.frame_sequencer == 6 {
            lemma_sweep_keeps(a, b);
            sweep(a, b)
        } else {
            (a, b)
        };
        lemma_lengths_keep(a1, b1);
        let (a2, b2) = lengths(a1, b1);
        lemma_envelopes_keep(a2, r);
    }
}

/// After a dot, each channel's DAC follows its register (bits 7-3 of NRx2,
/// bit 7 of NR30), and a channel whose DAC is off is disabled with its bit
/// of NR52 clear.
pub proof fn lemma_dac_off(a: Apu, b: BusView, ev: EventsView)
    requires
        b.sized(),
    ensures
        ({
            let (a2, b2, ev2, o) = tick(a, b, ev);
            &&& a2.dac_on(1) == (b.io[0x12] & 0xF8 != 0)
            &&& a2.dac_on(2) == (b.io[0x17] & 0xF8 != 0)
            &&& a2.dac_on(3) == (b.io[0x1A] >> 7u8 != 0)
            &&& a2.dac_on(4) == (b.io[0x21] & 0xF8 != 0)
            &&& forall|ch: int|
                1 <= ch <= 4 && !a2.dac_on(ch) ==> !a2.channel_on(ch) && nr52_clear(b2, ch)
        }),
{
    let r = regs_of(b);
    let (a1, b1) = triggers(a, b, r, ev);
    assert(b1.sized()) by {
        reveal(triggers);
    }
    let a2 = timer_events(a1, ev);
    lemma_dacs_establish(a2, b1, r);
    let (a3, b3) = dacs(a2, b1, r);
    lemma_middle_keeps(a3, b3, r);
    let a6 = noise(wave_period(square_periods(patterns(a3, r), r), b3, r), r.nr43);
    assert(dac_off_holds(a6, b3));
    lemma_frame_keeps(a6, b3, r);
}

/// One envelope step raises the volume by one up to 15 when bit 3 of NRx2
/// is set, and lowers it by one down to 0 when it is clear.
pub proof fn lemma_envelope_direction(nrx2: u8, volume: u8)
    ensures
        (nrx2 / 8) % 2 == 1 ==> envelope_step(nrx2, volume) == (if volume < 15 {
            volume + 1
        } else {
            volume as int
        }),
        (nrx2 / 8) % 2 == 0 ==> envelope_step(nrx2, volume) == (if volume > 0 {
            volume - 1
        } else {
            0
        }),
{
    assert((nrx2 >> 3u8) & 1 == (nrx2 / 8) % 2) by (bit_vector);
}

/// The register that sets channel `ch`'s envelope (NR12, NR22, NR42).
pub open spec fn envelope_register(ch: int) -> int {
    if ch == 1 {
        0x12
    } else if ch == 2 {
        0x17
    } else {
        0x21
    }
}

/// A channel's envelope state before the frame sequencer acts on a dot
/// without a trigger of that channel: as it was.
proof fn lemma_envelope_before_frame(a: Apu, b: BusView, ev: EventsView, ch: int)
    requires
        ch == 1 || ch == 2 || ch == 4,
        ev.triggers.len() == 4,
        ev.triggers[ch - 1].len() == 0,
    ensures
        ({
            let r = regs_of(b);
            let (a1, b1) = triggers(a, b, r, ev);
            let a2 = timer_events(a1, ev);
            let (a3, b3) = dacs(a2, b1, r);
            let a6 = noise(wave_period(square_periods(patterns(a3, r), r), b3, r), r.nr43);
            &&& a6.volume(ch) == a.volume(ch)
            &&& a6.envelope_pace(ch) == a.envelope_pace(ch)
            &&& a6.envelope_timer(ch) == a.envelope_timer(ch)
            &&& a6.frame_sequencer == a.frame_sequencer
            &&& a6.dots == a.dots
        }),
{
    reveal(triggers);
    reveal(timer_enables);
    reveal(timer_values);
    reveal(dacs_low);
    reveal(dacs_high);
    reveal(patterns);
    reveal(square_periods);
    reveal(wave_period);
    reveal(noise);
}

/// The frame sequencer's step 7 clocks the envelopes.
proof fn lemma_envelope_frame(a: Apu, b: BusView, r: SoundRegs, ch: int)
    requires
        ch == 1 || ch == 2 || ch == 4,
        a.frame_sequencer == 7,
        a.dots % 8192 == 0,
        a.dots > 0,
    ensures
        frame_step(a, b, r).0.volume(ch) == envelope_clock(
            a.envelope_pace(ch),
            a.envelope_timer(ch),
            a.volume(ch),
            if ch == 1 {
                r.nr12
            } else if ch == 2 {
                r.nr22
            } else {
                r.nr42
            },
        ).1,
{
    reveal(lengths_low);
    reveal(lengths_high);
    reveal(envelopes);
}

/// On a dot that starts step 7 of the frame sequencer, without a trigger of
/// channel `ch` (1, 2 or 4), an envelope whose count has reached its pace
/// moves the channel's volume one step in the direction that bit 3 of its
/// register (NR12, NR22, NR42) gives: up to at most 15 when set, down to at
/// least 0 when clear.
pub proof fn lemma_envelope_on_tick(a: Apu, b: BusView, ev: EventsView, ch: int)
    requires
        ch == 1 || ch == 2 || ch == 4,
        b.sized(),
        ev.triggers.len() == 4,
        ev.triggers[ch - 1].len() == 0,
        a.frame_step() == 7,
        a.dot_count() % 8192 == 0,
        a.dot_count() > 0,
        a.envelope_pace(ch) != 0,
        a.envelope_timer(ch) + 1 == a.envelope_pace(ch),
    ensures
        ({
            let v = a.volume(ch);
            let v2 = tick(a, b, ev).0.volume(ch);
            let reg = b.io[envelope_register(ch)];
            &&& (reg / 8) % 2 == 1 ==> v2 == (if v < 15 {
                v + 1
            } else {
                v as int
            })
            &&& (reg / 8) % 2 == 0 ==> v2 == (if v > 0 {
                v - 1
            } else {
                0
            })
        }),
{
    lemma_envelope_before_frame(a, b, ev, ch);
    let r = regs_of(b);
    let (a1, b1) = triggers(a, b, r, ev);
    let a2 = timer_events(a1, ev);
    let (a3, b3) = dacs(a2, b1, r);
    let a6 = noise(wave_period(square_periods(patterns(a3, r), r), b3, r), r.nr43);
    lemma_envelope_frame(a6, b3, r, ch);
    lemma_envelope_direction(b.io[envelope_register(ch)], a.volume(ch));
}

/// The number of set bits of a byte.
pub open spec fn ones(p: u8) -> int {
    p % 2 + (p / 2) % 2 + (p / 4) % 2 + (p / 8) % 2 + (p / 16) % 2 + (p / 32) % 2 + (p / 64) % 2 + (p
        / 128) % 2
}

/// The duty patterns are high for 1, 2, 4 and 6 of their 8 steps (12.5%,
/// 25%, 50%, 75%), as bits 7-6 of NRx1 select 0 to 3; the 75% pattern is
/// the 25% pattern inverted.
pub proof fn lemma_duty_fractions(nrx1: u8)
    ensures
        ({
            let d = nrx1 / 64;
            let p = duty_pattern(nrx1);
            &&& d == 0 ==> ones(p) == 1
            &&& d == 1 ==> ones(p) == 2
            &&& d == 2 ==> ones(p) == 4
            &&& d == 3 ==> ones(p) == 6
        }),
{
    assert((nrx1 >> 6u8) & 0x3 == nrx1 / 64) by (bit_vector);
}

/// One clock of the noise register: bits 13-0 take bits 14-1 (but bit 6
/// in the short mode, bit 3 of NR43), and bit 14 (and bit 6 in the short
/// mode) takes 1 exactly when bits 0 and 1 were equal.
pub proof fn lemma_lfsr_clock(lfsr: u16, nr43: u8)
    requires
        lfsr < 0x8000,
    ensures
        ({
            let r = lfsr_step(lfsr, nr43);
            let fb: u16 = if lfsr % 2 == (lfsr / 2) % 2 {
                1
            } else {
                0
            };
            &&& r < 0x8000
            &&& r / 0x4000 == fb
            &&& (nr43 / 8) % 2 == 0 ==> r % 0x4000 == lfsr / 2
            &&& (nr43 / 8) % 2 == 1 ==> (r / 64) % 2 == fb && r % 64 == (lfsr / 2) % 64 && (r
                / 128) % 128 == (lfsr / 256) % 128
        }),
{
    let x = lfsr;
    let k = nr43;
    assert((k & 0x08 != 0) == ((k / 8) % 2 == 1)) by (bit_vector);
    let feedback = !(x ^ (x >> 1u16)) & 1;
    let shifted = (x >> 1u16) | (feedback << 14u16);
    let short = (shifted & !(1u16 << 6u16)) | (feedback << 6u16);
    assert(feedback == (if x % 2 == (x / 2) % 2 {
        1u16
    } else {
        0u16
    })) by (bit_vector)
        requires
            feedback == !(x ^ (x >> 1u16)) & 1,
    ;
    assert(shifted < 0x8000 && shifted / 0x4000 == feedback && shifted % 0x4000 == x / 2)
        by (bit_vector)
        requires
            x < 0x8000,
            feedback <= 1,
            shifted == (x >> 1u16) | (feedback << 14u16),
    ;
    assert(short < 0x8000 && short / 0x4000 == feedback && (short / 64) % 2 == feedback && short
        % 64 == (x / 2) % 64 && (short / 128) % 128 == (x / 256) % 128) by (bit_vector)
        requires
            x < 0x8000,
            feedback <= 1,
            shifted == (x >> 1u16) | (feedback << 14u16),
            short == (shifted & !(1u16 << 6u16)) | (feedback << 6u16),
    ;
}

/// The noise timer's period: 8 for divisor code 0, else 16 times the code
/// (bits 2-0 of NR43), times 2 to the shift in bits 7-4.
pub proof fn lemma_noise_period(nr43: u8)
    requires
        nr43 / 16 < 14,
    ensures
        noise_period(nr43) == (if nr43 % 8 == 0 {
            8
        } else {
            16 * (nr43 % 8)
        }) * vstd::arithmetic::power2::pow2((nr43 / 16) as nat),
{
    let k = nr43;
    assert((k & 0x7) == k % 8 && (k >> 4u8) == k / 16) by (bit_vector);
    let d: u32 = if k % 8 == 0 {
        8
    } else {
        (16 * (k % 8)) as u32
    };
    let sh = k >> 4u8;
    vstd::arithmetic::power2::lemma2_to64();
    if sh < 13 {
        vstd::arithmetic::power2::lemma_pow2_strictly_increases(sh as nat, 13);
    }
    let p2 = vstd::arithmetic::power2::pow2(sh as nat);
    assert(d * p2 <= 112 * 8192) by (nonlinear_arith)
        requires
            0 <= d <= 112,
            0 <= p2 <= 8192,
    ;
    vstd::bits::lemma_u32_shl_is_mul(d, sh as u32);
}

} // verus!
