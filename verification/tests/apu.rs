use mdgbe::apu::{Apu, ApuEvents, SampleInputs};
use mdgbe::bus::Bus;
use mdgbe::cartridge::Cartridge_MBC1;

fn bus() -> Bus {
    let mut cart = Cartridge_MBC1::new();
    let mut h = [0u8; 80];
    h[0x47] = 1;
    cart.load_header(h);
    Bus::new(cart)
}

fn dots(apu: &mut Apu, b: &mut Bus, ev: &mut ApuEvents, n: usize) -> Vec<SampleInputs> {
    let mut out = Vec::new();
    for _ in 0..n {
        if let Some(s) = apu.buffer(b, ev) {
            out.push(s);
        }
    }
    out
}

#[test]
fn new_apu_has_room() {
    assert!(Apu::new().has_room());
}

#[test]
fn trigger_sets_channel_bit() {
    let mut apu = Apu::new();
    let mut b = bus();
    let mut ev = ApuEvents::new();
    b.io_regs[0x12] = 0xF0;
    ev.channel1_triggers.push_back(());
    ev.channel1_triggers.push_back(());
    assert!(apu.buffer(&mut b, &mut ev).is_none());
    assert_eq!(b.io_regs[0x26], 0x01);
    // One trigger per dot.
    assert_eq!(ev.channel1_triggers.len(), 1);
}

#[test]
fn trigger_without_dac_leaves_channel_off() {
    let mut apu = Apu::new();
    let mut b = bus();
    let mut ev = ApuEvents::new();
    ev.channel2_triggers.push_back(());
    apu.buffer(&mut b, &mut ev);
    assert_eq!(b.io_regs[0x26], 0x00);
}

#[test]
fn all_channel_bits() {
    let mut apu = Apu::new();
    let mut b = bus();
    let mut ev = ApuEvents::new();
    b.io_regs[0x12] = 0xF0;
    b.io_regs[0x17] = 0x80;
    b.io_regs[0x1A] = 0x80;
    b.io_regs[0x21] = 0x10;
    ev.channel1_triggers.push_back(());
    ev.channel2_triggers.push_back(());
    ev.channel3_triggers.push_back(());
    ev.channel4_triggers.push_back(());
    apu.buffer(&mut b, &mut ev);
    assert_eq!(b.io_regs[0x26], 0x0F);
}

#[test]
fn one_sample_per_output_period() {
    let mut apu = Apu::new();
    let mut b = bus();
    let mut ev = ApuEvents::new();
    assert!(dots(&mut apu, &mut b, &mut ev, 95).is_empty());
    assert_eq!(dots(&mut apu, &mut b, &mut ev, 1).len(), 1);
    // 70224 dots give 738 samples from the start.
    let mut apu = Apu::new();
    assert_eq!(dots(&mut apu, &mut b, &mut ev, 70224).len(), 738);
}

#[test]
fn square_sample_level() {
    let mut apu = Apu::new();
    let mut b = bus();
    let mut ev = ApuEvents::new();
    b.io_regs[0x11] = 0x80;
    b.io_regs[0x12] = 0xF0;
    b.io_regs[0x24] = 0x77;
    b.io_regs[0x25] = 0xFF;
    ev.channel1_triggers.push_back(());
    let out = dots(&mut apu, &mut b, &mut ev, 96);
    assert_eq!(out.len(), 1);
    let s = &out[0];
    assert_eq!(s.dac, [true, false, false, false]);
    assert_eq!(s.enabled, [true, false, false, false]);
    assert_eq!(s.level, [15, 0, 0, 0]);
    assert_eq!((s.nr50, s.nr51), (0x77, 0xFF));
}

#[test]
fn duty_step_low_gives_level_zero() {
    let mut apu = Apu::new();
    let mut b = bus();
    let mut ev = ApuEvents::new();
    // Duty 0 (0b00000001): step 0 reads bit 7, which is clear.
    b.io_regs[0x11] = 0x00;
    b.io_regs[0x12] = 0xF0;
    ev.channel1_triggers.push_back(());
    let out = dots(&mut apu, &mut b, &mut ev, 96);
    assert_eq!(out[0].level[0], 0);
    assert!(out[0].enabled[0]);
}

#[test]
fn length_timer_disables_channel() {
    let mut apu = Apu::new();
    let mut b = bus();
    let mut ev = ApuEvents::new();
    b.io_regs[0x12] = 0xF0;
    ev.channel1_triggers.push_back(());
    ev.channel1_timer_triggers.push_back(true);
    ev.channel1_timer_values.push_back(63);
    dots(&mut apu, &mut b, &mut ev, 8192);
    assert_eq!(b.io_regs[0x26] & 1, 1);
    dots(&mut apu, &mut b, &mut ev, 1);
    assert_eq!(b.io_regs[0x26] & 1, 0);
}

#[test]
fn envelope_lowers_volume() {
    let mut apu = Apu::new();
    let mut b = bus();
    let mut ev = ApuEvents::new();
    b.io_regs[0x11] = 0x80;
    b.io_regs[0x12] = 0xF1;
    ev.channel1_triggers.push_back(());
    // Step 7 of the frame sequencer comes at dot 8 * 8192.
    let out = dots(&mut apu, &mut b, &mut ev, 8 * 8192 + 1);
    assert_eq!(out.last().unwrap().level[0], 15);
    let out = dots(&mut apu, &mut b, &mut ev, 96);
    assert_eq!(out.last().unwrap().level[0], 14);
}

#[test]
fn sweep_overflow_on_trigger_disables_channel() {
    let mut apu = Apu::new();
    let mut b = bus();
    let mut ev = ApuEvents::new();
    b.io_regs[0x12] = 0xF0;
    // Period 0x7FF, sweep up by period >> 1: the first step passes 0x7FF.
    b.io_regs[0x10] = 0x11;
    b.io_regs[0x13] = 0xFF;
    b.io_regs[0x14] = 0x07;
    ev.channel1_triggers.push_back(());
    apu.buffer(&mut b, &mut ev);
    assert_eq!(b.io_regs[0x26] & 1, 0);
}

#[test]
fn wave_channel_level_from_output_level() {
    let mut apu = Apu::new();
    let mut b = bus();
    let mut ev = ApuEvents::new();
    b.io_regs[0x1A] = 0x80;
    b.io_regs[0x1C] = 0x20;
    ev.channel3_triggers.push_back(());
    let out = dots(&mut apu, &mut b, &mut ev, 96);
    assert!(out[0].dac[2] && out[0].enabled[2]);
    // No sample has been fetched yet.
    assert_eq!(out[0].level[2], 0);
}
