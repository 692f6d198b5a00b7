//! The whole machine: the CPU drives the bus, and each of its cycles is one
//! dot of the picture unit and of the sound unit.
use vstd::prelude::*;
use crate::apu::{self, Apu, ApuEvents, EventsView, SampleInputs};
use crate::bus::{Bus, BusView, bit_value, zero_bytes};
use crate::cartridge::{Cartridge_MBC1, empty_cart};
use crate::cpu::{Cpu, initial_cpu};
use crate::ppu::{self, frame_view, Pixel, Ppu, PpuView};
use crate::sm83::{self, CpuView};

verus! {

/// The cycles of one frame: 154 lines of 456 dots.
pub const FRAME_T_CYCLES: u64 = 70224;

/// The units that advance one dot per CPU cycle, with the bus they share.
pub struct Machine {
    pub ppu: PpuView,
    pub frame: Seq<Seq<Pixel>>,
    pub bus: BusView,
    pub apu: Apu,
    pub events: EventsView,
}

/// A sample, where there is one, as a sequence of at most one element.
pub open spec fn opt_seq(o: Option<SampleInputs>) -> Seq<SampleInputs> {
    match o {
        Some(s) => seq![s],
        None => Seq::empty(),
    }
}

/// One dot: the picture unit's, then the sound unit's. There is none where
/// the sound unit's dot counter is full.
pub open spec fn dot(m: Machine) -> Option<(Machine, Option<SampleInputs>)> {
    if !m.apu.can_tick() {
        None
    } else {
        let (p, f, b) = ppu::tick(m.ppu, m.frame, m.bus);
        let (a, b2, ev, o) = apu::tick(m.apu, b, m.events);
        Some((Machine { ppu: p, frame: f, bus: b2, apu: a, events: ev }, o))
    }
}

/// `n` dots, with the samples that fell due in them.
pub open spec fn run_dots(m: Machine, n: nat) -> Option<(Machine, Seq<SampleInputs>)>
    decreases n,
{
    if n == 0 {
        Some((m, Seq::empty()))
    } else {
        match run_dots(m, (n - 1) as nat) {
            Some((m1, out)) => match dot(m1) {
                Some((m2, o)) => Some((m2, out + opt_seq(o))),
                None => None,
            },
            None => None,
        }
    }
}

/// The cycles left in the frame.
pub open spec fn frame_left(t: u64) -> nat {
    if t < FRAME_T_CYCLES {
        (FRAME_T_CYCLES - t) as nat
    } else {
        0
    }
}

/// The rest of a frame from cycle count `t`: while fewer than
/// `FRAME_T_CYCLES` cycles have passed, one CPU step and as many dots as it
/// took cycles. The result is the CPU, the machine, the cycle count and the
/// samples; there is none where a step or a dot has none.
pub open spec fn frame_steps(c: CpuView, m: Machine, t: u64) -> Option<
    (CpuView, Machine, u64, Seq<SampleInputs>),
>
    decreases frame_left(t), 0x10000 - c.pc,
    via frame_steps_decreases
{
    if t >= FRAME_T_CYCLES {
        Some((c, m, t, Seq::empty()))
    } else {
        match sm83::step(c, m.bus) {
            Some((c1, b1, n)) => match run_dots(Machine { bus: b1, ..m }, n as nat) {
                Some((m2, out)) => match frame_steps(c1, m2, (t + n) as u64) {
                    Some((c3, m3, t3, out3)) => Some((c3, m3, t3, out + out3)),
                    None => None,
                },
                None => None,
            },
            None => None,
        }
    }
}

#[via_fn]
proof fn frame_steps_decreases(c: CpuView, m: Machine, t: u64) {
    sm83::lemma_step_progress(c, m.bus);
}

/// Once the dots have no outcome, neither have more of them.
proof fn lemma_run_dots_none(m: Machine, i: nat, n: nat)
    requires
        i <= n,
        run_dots(m, i) is None,
    ensures
        run_dots(m, n) is None,
    decreases n - i,
{
    if i < n {
        lemma_run_dots_none(m, i, (n - 1) as nat);
    }
}

/// A button of the joypad.
pub enum Button {
    Up,
    Down,
    Left,
    Right,
    A,
    B,
    Start,
    Select,
}

/// The bus with `button` held (`pressed`) or released.
pub open spec fn with_button(b: BusView, button: Button, pressed: bool) -> BusView {
    match button {
        Button::Up => BusView { up: pressed, ..b },
        Button::Down => BusView { down: pressed, ..b },
        Button::Left => BusView { left: pressed, ..b },
        Button::Right => BusView { right: pressed, ..b },
        Button::A => BusView { a: pressed, ..b },
        Button::B => BusView { b: pressed, ..b },
        Button::Start => BusView { start: pressed, ..b },
        Button::Select => BusView { select: pressed, ..b },
    }
}

/// The line of the joypad register (as a power of two) that a button
/// pulls low.
pub open spec fn button_line(button: Button) -> int {
    match button {
        Button::A | Button::Right => 1,
        Button::B | Button::Left => 2,
        Button::Select | Button::Up => 4,
        Button::Start | Button::Down => 8,
    }
}

/// The selection bit of the joypad register (bit 4 or bit 5, as a power of
/// two) that chooses a button's group.
pub open spec fn button_group(button: Button) -> int {
    match button {
        Button::A | Button::B | Button::Select | Button::Start => 16,
        _ => 32,
    }
}

/// With only its group selected, a button's line of the joypad register
/// reads 0 while the button is held and 1 while it is released.
pub proof fn lemma_button_line(b: BusView, button: Button, pressed: bool)
    requires
        (b.io[0] as int / 16) % 4 == button_group(button) / 16,
    ensures
        (with_button(b, button, pressed).peek(0xFF00) as int / button_line(button)) % 2 == (if pressed {
            0int
        } else {
            1int
        }),
{
    let b2 = with_button(b, button, pressed);
    let reg = b2.io[0];
    let d_pad = (reg / 16) % 2 == 1;
    let buttons = (reg / 32) % 2 == 1;
    let (l0, l1, l2, l3) = if d_pad && buttons {
        (!(b2.a || b2.right), !(b2.b || b2.left), !(b2.select || b2.up), !(b2.start || b2.down))
    } else if d_pad {
        (!b2.a, !b2.b, !b2.select, !b2.start)
    } else if buttons {
        (!b2.right, !b2.left, !b2.up, !b2.down)
    } else {
        (true, true, true, true)
    };
    lemma_nibble_bits(
        (reg / 16) as int,
        bit_value(l0) as int,
        bit_value(l1) as int,
        bit_value(l2) as int,
        bit_value(l3) as int,
    );
}

/// The four low bits of a byte built from a high nibble and four bits.
proof fn lemma_nibble_bits(q: int, b0: int, b1: int, b2: int, b3: int)
    requires
        0 <= q < 16,
        0 <= b0 <= 1,
        0 <= b1 <= 1,
        0 <= b2 <= 1,
        0 <= b3 <= 1,
    ensures
        ({
            let x = q * 16 + b3 * 8 + b2 * 4 + b1 * 2 + b0;
            &&& x % 2 == b0
            &&& (x / 2) % 2 == b1
            &&& (x / 4) % 2 == b2
            &&& (x / 8) % 2 == b3
            &&& 0 <= x < 256
        }),
{
}

/// The machine: the CPU, the bus, the picture and sound units with the
/// sound unit's request queues, the frame being drawn, and the cycles that
/// have passed in the current frame.
pub struct Gameboy {
    pub cpu: Cpu,
    pub bus: Bus,
    pub ppu: Ppu,
    pub apu: Apu,
    pub events: ApuEvents,
    frame: [[(u8, u8, u8); 160]; 144],
    t_states: u64,
}

impl Gameboy {
    /// The dot-driven units and the bus.
    pub closed spec fn machine(self) -> Machine {
        Machine {
            ppu: self.ppu@,
            frame: frame_view(self.frame),
            bus: self.bus@,
            apu: self.apu,
            events: self.events@,
        }
    }

    /// The CPU's registers.
    pub closed spec fn cpu_state(self) -> CpuView {
        self.cpu@
    }

    /// The cycles that have passed in the current frame.
    pub closed spec fn t_states(self) -> u64 {
        self.t_states
    }

    pub closed spec fn wf(self) -> bool {
        self.bus@.wf() && self.apu.wf()
    }
}

impl Gameboy {
    /// A machine with an empty cartridge: the CPU and the units as after
    /// power-on, every pixel of the frame (3, 3, 3), and the joypad register
    /// 0xCF.
    pub fn new() -> (g: Self)
        ensures
            g.wf(),
            g.cpu_state() == initial_cpu(),
            g.machine() == (Machine {
                ppu: PpuView { dots: 0, objs: Seq::empty() },
                frame: Seq::new(144, |y: int| Seq::new(160, |x: int| (3u8, 3u8, 3u8))),
                bus: BusView {
                    cart: empty_cart(),
                    vram: zero_bytes(8192),
                    wram1: zero_bytes(4096),
                    wram2: zero_bytes(4096),
                    oam: zero_bytes(160),
                    hram: zero_bytes(127),
                    io: zero_bytes(128).update(0, 0xCF),
                    ie: 0,
                    up: false,
                    down: false,
                    left: false,
                    right: false,
                    a: false,
                    b: false,
                    start: false,
                    select: false,
                },
                apu: Apu::initial(),
                events: EventsView {
                    triggers: seq![Seq::empty(), Seq::empty(), Seq::empty(), Seq::empty()],
                    timer_triggers: seq![Seq::empty(), Seq::empty(), Seq::empty(), Seq::empty()],
                    timer_values: seq![Seq::empty(), Seq::empty(), Seq::empty(), Seq::empty()],
                },
            }),
            g.t_states() == 0,
    {
        let mut gb = Gameboy {
            cpu: Cpu::new(),
            bus: Bus::new(Cartridge_MBC1::new()),
            ppu: Ppu::new(),
            apu: Apu::new(),
            events: ApuEvents::new(),
            frame: [[(3, 3, 3); 160]; 144],
            t_states: 0,
        };
        gb.bus.io_regs[0] = 0xCF;
        proof {
            assert(gb.bus@.io =~= zero_bytes(128).update(0, 0xCF));
            assert(frame_view(gb.frame) =~~= Seq::new(
                144,
                |y: int| Seq::new(160, |x: int| (3u8, 3u8, 3u8)),
            ));
        }
        gb
    }

    /// Holds (`pressed`) or releases a button of the joypad.
    pub fn set_button(&mut self, button: Button, pressed: bool)
        ensures
            final(self).cpu_state() == old(self).cpu_state(),
            final(self).machine() == (Machine {
                bus: with_button(old(self).machine().bus, button, pressed),
                ..old(self).machine()
            }),
            final(self).t_states() == old(self).t_states(),
            final(self).wf() == old(self).wf(),
    {
        match button {
            Button::Up => self.bus.up = pressed,
            Button::Down => self.bus.down = pressed,
            Button::Left => self.bus.left = pressed,
            Button::Right => self.bus.right = pressed,
            Button::A => self.bus.a = pressed,
            Button::B => self.bus.b = pressed,
            Button::Start => self.bus.start = pressed,
            Button::Select => self.bus.select = pressed,
        }
    }

    /// The frame that the picture unit draws into.
    pub fn frame(&self) -> (f: &[[Pixel; 160]; 144])
        ensures
            frame_view(*f) == self.machine().frame,
    {
        &self.frame
    }

    /// One frame: CPU steps, each followed by as many dots as it took
    /// cycles, until `FRAME_T_CYCLES` cycles have passed; the count then
    /// starts the next frame with the cycles beyond. The samples that fell
    /// due come back in order. `None` where `frame_steps` has no outcome.
    /// As no instruction takes more than 24 cycles, a count that starts
    /// below `FRAME_T_CYCLES + 24` ends below 24.
    pub fn run_frame(&mut self) -> (r: Option<Vec<SampleInputs>>)
        requires
            old(self).wf(),
        ensures
            final(self).wf(),
            match frame_steps(old(self).cpu_state(), old(self).machine(), old(self).t_states()) {
                Some((c, m, t, out)) => {
                    &&& r matches Some(v) && v@ == out
                    &&& final(self).cpu_state() == c
                    &&& final(self).machine() == m
                    &&& final(self).t_states() == t - FRAME_T_CYCLES
                    &&& old(self).t_states() < FRAME_T_CYCLES + 24 ==> final(self).t_states() < 24
                },
                None => r is None,
            },
    {
        let ghost c0 = self.cpu@;
        let ghost m0 = self.machine();
        let ghost t0 = self.t_states;
        let mut samples: Vec<SampleInputs> = Vec::new();
        while self.t_states < FRAME_T_CYCLES
            invariant
                self.wf(),
                c0 == old(self).cpu_state(),
                m0 == old(self).machine(),
                t0 == old(self).t_states(),
                t0 < FRAME_T_CYCLES + 24 ==> self.t_states < FRAME_T_CYCLES + 24,
                frame_steps(c0, m0, t0) == (match frame_steps(
                    self.cpu@,
                    self.machine(),
                    self.t_states,
                ) {
                    Some((c, m, t, out)) => Some((c, m, t, samples@ + out)),
                    None => None,
                }),
            decreases frame_left(self.t_states), 0x10000 - self.cpu@.pc,
        {
            let ghost c1 = self.cpu@;
            let ghost m1 = self.machine();
            let ghost base = samples@;
            proof {
                sm83::lemma_step_progress(c1, m1.bus);
                sm83::lemma_step_accounting(c1, m1.bus);
            }
            let ghost t1 = self.t_states;
            let n = match self.cpu.try_step(&mut self.bus) {
                Some(n) => n,
                None => {
                    assert(frame_steps(c1, m1, t1) is None);
                    assert(frame_steps(c0, m0, t0) is None);
                    return None;
                },
            };
            let ghost m2 = self.machine();
            assert(m2 == Machine { bus: m2.bus, ..m1 });
            let ghost c2 = self.cpu@;
            let ghost mut got: Seq<SampleInputs> = Seq::empty();
            let mut i: u32 = 0;
            while i < n
                invariant
                    i <= n,
                    self.wf(),
                    c0 == old(self).cpu_state(),
                    m0 == old(self).machine(),
                    t0 == old(self).t_states(),
                    n <= 24,
                    self.cpu@ == c2,
                    self.t_states == t1,
                    t1 < FRAME_T_CYCLES,
                    sm83::step(c1, m1.bus) == Some((c2, m2.bus, n)),
                    m2 == (Machine { bus: m2.bus, ..m1 }),
                    frame_steps(c0, m0, t0) == (match frame_steps(c1, m1, t1) {
                        Some((c, m, t, out)) => Some((c, m, t, base + out)),
                        None => None,
                    }),
                    samples@ == base + got,
                    run_dots(m2, i as nat) == Some((self.machine(), got)),
                decreases n - i,
            {
                if !self.apu.has_room() {
                    proof {
                        assert(run_dots(m2, (i + 1) as nat) is None);
                        lemma_run_dots_none(m2, (i + 1) as nat, n as nat);
                        assert(frame_steps(c1, m1, t1) is None);
                        assert(frame_steps(c0, m0, t0) is None);
                    }
                    return None;
                }
                self.ppu.buffer(&mut self.frame, &mut self.bus);
                let o = self.apu.buffer(&mut self.bus, &mut self.events);
                proof {
                    got = got + opt_seq(o);
                }
                match o {
                    Some(s) => samples.push(s),
                    None => {},
                }
                i += 1;
            }
            self.t_states = self.t_states + u64::from(n);
        }
        self.t_states = self.t_states - FRAME_T_CYCLES;
        Some(samples)
    }
}

} // verus!
