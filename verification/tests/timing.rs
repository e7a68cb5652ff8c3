use vibeboy::model::GbModel;
use vibeboy::serial::{Disconnected, Serial, SerialDevice};
use vibeboy::timer::{sgb_packet_popcount, Timer};

#[test]
fn div_counts_cycles() {
    let mut t = Timer::reset();
    t.step(247);
    assert_eq!(t.read(0xFF04), 0);
    t.step(1);
    assert_eq!(t.read(0xFF04), 1);
    assert_eq!(t.counter(), 256);
    t.write(0xFF04, 0x55);
    assert_eq!(t.counter(), 0);
}

#[test]
fn steps_of_a_timer_compose() {
    let mut a = Timer::new();
    let mut b = Timer::new();
    a.write(0xFF07, 0x05);
    b.write(0xFF07, 0x05);
    a.step(1000);
    b.step(400);
    b.step(600);
    assert_eq!(a.counter(), b.counter());
    assert_eq!(a.read(0xFF05), b.read(0xFF05));
}

#[test]
fn tima_counts_at_its_rate() {
    for (tac, period) in [(0x04u8, 1024u32), (0x05, 16), (0x06, 64), (0x07, 256)] {
        let mut t = Timer::new();
        t.write(0xFF07, tac);
        t.step(period * 3);
        assert_eq!(t.read(0xFF05), 3);
    }
}

#[test]
fn disabled_timer_holds() {
    let mut t = Timer::new();
    t.write(0xFF05, 0x42);
    t.write(0xFF07, 0x01);
    t.step(5000);
    assert_eq!(t.read(0xFF05), 0x42);
}

#[test]
fn overflow_reloads_and_interrupts() {
    let mut t = Timer::reset();
    t.write(0xFF04, 0);
    t.write(0xFF06, 0x80);
    t.write(0xFF05, 0xFF);
    t.write(0xFF07, 0x05);
    t.step(16);
    assert_eq!(t.read(0xFF05), 0x00);
    assert!(!t.interrupt);
    t.step(4);
    assert_eq!(t.read(0xFF05), 0x80);
    assert!(t.interrupt);
    t.clear_interrupt();
    assert!(!t.interrupt);
}

#[test]
fn timer_registers_read_back() {
    let mut t = Timer::new();
    t.write(0xFF06, 0x12);
    assert_eq!(t.read(0xFF06), 0x12);
    t.write(0xFF07, 0x03);
    assert_eq!(t.read(0xFF07), 0xFB);
    assert_eq!(t.read(0xFF10), 0xFF);
}

#[test]
fn post_boot_depends_on_the_model() {
    let rom = vec![0u8; 0x8000];
    let dmg0 = Timer::post_boot(GbModel::Dmg0, false, &rom);
    let dmg = Timer::post_boot(GbModel::Dmg, false, &rom);
    assert_eq!(dmg0.counter() >> 8, 0x18);
    assert_eq!(dmg.counter() >> 8, 0xAB);
}

#[test]
fn header_bits_are_counted() {
    let zero = vec![0u8; 0x150];
    let base = sgb_packet_popcount(&zero);
    let mut one = vec![0u8; 0x150];
    one[0x104] = 0x01;
    assert!(sgb_packet_popcount(&one) >= base);
}

/// A device that answers the bits of a byte, highest first.
struct Echo {
    byte: u8,
    seen: u8,
    ticks: u32,
}

impl SerialDevice for Echo {
    type State = ();
    fn state(&self) {}
    fn response(_: ()) -> bool {
        unreachable!()
    }
    fn after_bit_start(_: (), _: bool) {}
    fn after_bit_end(_: ()) {}
    fn after_tick(_: (), _: u32) {}
    fn bit_start(&mut self, bit: bool) {
        self.seen = (self.seen << 1) | bit as u8;
    }
    fn bit_end(&mut self) -> bool {
        let bit = self.byte & 0x80 != 0;
        self.byte <<= 1;
        bit
    }
    fn tick(&mut self, ticks: u32) {
        self.ticks += ticks;
    }
}

fn run_transfer<D: SerialDevice>(s: &mut Serial<D>) {
    let mut div: u16 = 0;
    for _ in 0..2 * 8 * 256 {
        let next = div.wrapping_add(1);
        s.step(div, next);
        div = next;
    }
}

#[test]
fn disconnected_transfer_reads_ones() {
    let mut s = Serial::new(false);
    s.sb = 0x12;
    s.write_sc(0x81);
    run_transfer(&mut s);
    assert_eq!(s.sb, 0xFF);
    assert!(s.interrupt);
    assert_eq!(s.read_sc() & 0x80, 0);
    assert_eq!(s.serial_output, vec![0x12]);
}

#[test]
fn transfer_exchanges_a_byte() {
    let mut s = Serial::with_device(false, Echo { byte: 0xA5, seen: 0, ticks: 0 });
    s.sb = 0x3C;
    s.write_sc(0x81);
    run_transfer(&mut s);
    assert_eq!(s.sb, 0xA5);
    assert_eq!(s.device.seen, 0x3C);
    assert!(s.device.ticks > 0);
}

#[test]
fn serial_snapshot_round_trip() {
    let mut s = Serial::new(true);
    s.sb = 0x77;
    s.write_sc(0x83);
    let snap = s.take_snapshot();
    s.write_sc(0x00);
    s.sb = 0;
    s.apply_snapshot(&snap);
    assert_eq!(s.sb, 0x77);
    assert_eq!(s.take_snapshot().serial_mask, snap.serial_mask);
    assert_eq!(s.read_sc() & 0x83, 0x83);
}

#[test]
fn no_transfer_without_its_own_clock() {
    let mut s = Serial::with_device(false, Disconnected);
    s.sb = 0x12;
    s.write_sc(0x80);
    run_transfer(&mut s);
    assert_eq!(s.sb, 0x12);
    assert!(!s.interrupt);
}
