//! Behavioral tests for the driver against recording mock collaborators:
//! a command/data channel, reset and backlight pins and a delay provider
//! that all append to one shared event log, so the exact order of
//! transfers, pin changes and waits can be checked.

use std::cell::RefCell;
use std::rc::Rc;

use st7796::geometry::Rect;
use st7796::graphics::Pixel;
use st7796::instruction::Command;
use st7796::interface::{Bus, BusFault, Delay, Level, OutPin, RecordedWrite, RecordingBus, RecordingDelay, RecordingPin};
use st7796::{BacklightState, Error, Orientation, TearingEffect, ST7796};

#[derive(Clone, Debug, PartialEq, Eq)]
enum Ev {
    Cmd(u8),
    Data(Vec<u8>),
    Rst(bool),
    Bl(bool),
    Wait(u32),
}

type Log = Rc<RefCell<Vec<Ev>>>;

struct MockBus {
    log: Log,
    fail: bool,
}

impl Bus for MockBus {
    fn send_command(&mut self, opcode: u8) -> Result<(), BusFault> {
        if self.fail {
            return Err(BusFault);
        }
        self.log.borrow_mut().push(Ev::Cmd(opcode));
        Ok(())
    }

    fn send_data(&mut self, data: &[u8]) -> Result<(), BusFault> {
        if self.fail {
            return Err(BusFault);
        }
        self.log.borrow_mut().push(Ev::Data(data.to_vec()));
        Ok(())
    }
}

struct MockRst {
    log: Log,
    fail: bool,
}

impl OutPin for MockRst {
    type Fault = u8;

    fn set_high(&mut self) -> Result<(), u8> {
        if self.fail {
            return Err(7);
        }
        self.log.borrow_mut().push(Ev::Rst(true));
        Ok(())
    }

    fn set_low(&mut self) -> Result<(), u8> {
        if self.fail {
            return Err(7);
        }
        self.log.borrow_mut().push(Ev::Rst(false));
        Ok(())
    }
}

struct MockBl {
    log: Log,
    fail: bool,
}

impl OutPin for MockBl {
    type Fault = u8;

    fn set_high(&mut self) -> Result<(), u8> {
        if self.fail {
            return Err(9);
        }
        self.log.borrow_mut().push(Ev::Bl(true));
        Ok(())
    }

    fn set_low(&mut self) -> Result<(), u8> {
        if self.fail {
            return Err(9);
        }
        self.log.borrow_mut().push(Ev::Bl(false));
        Ok(())
    }
}

struct FlakyBus {
    log: Log,
    accept: usize,
}

impl Bus for FlakyBus {
    fn send_command(&mut self, opcode: u8) -> Result<(), BusFault> {
        if self.accept == 0 {
            return Err(BusFault);
        }
        self.accept -= 1;
        self.log.borrow_mut().push(Ev::Cmd(opcode));
        Ok(())
    }

    fn send_data(&mut self, data: &[u8]) -> Result<(), BusFault> {
        if self.accept == 0 {
            return Err(BusFault);
        }
        self.accept -= 1;
        self.log.borrow_mut().push(Ev::Data(data.to_vec()));
        Ok(())
    }
}

struct MockDelay {
    log: Log,
}

impl Delay for MockDelay {
    fn delay_us(&mut self, us: u32) {
        self.log.borrow_mut().push(Ev::Wait(us));
    }
}

type Driver = ST7796<MockBus, MockRst, MockBl>;

fn rig(with_rst: bool, with_bl: bool) -> (Driver, MockDelay, Log) {
    let log: Log = Rc::new(RefCell::new(Vec::new()));
    let bus = MockBus { log: log.clone(), fail: false };
    let rst = if with_rst {
        Some(MockRst { log: log.clone(), fail: false })
    } else {
        None
    };
    let bl = if with_bl {
        Some(MockBl { log: log.clone(), fail: false })
    } else {
        None
    };
    let delay = MockDelay { log: log.clone() };
    (ST7796::new(bus, rst, bl, 320, 480), delay, log)
}

fn failing_bus_rig() -> Driver {
    let log: Log = Rc::new(RefCell::new(Vec::new()));
    ST7796::new(MockBus { log, fail: true }, None, None, 320, 480)
}

fn be(w: u16) -> Vec<u8> {
    vec![(w >> 8) as u8, (w & 0xFF) as u8]
}

fn window(sx: u16, sy: u16, ex: u16, ey: u16) -> Vec<Ev> {
    vec![
        Ev::Cmd(0x2A),
        Ev::Data(be(sx)),
        Ev::Data(be(ex)),
        Ev::Cmd(0x2B),
        Ev::Data(be(sy)),
        Ev::Data(be(ey)),
    ]
}

fn burst(sx: u16, sy: u16, ex: u16, ey: u16, colors: &[u16]) -> Vec<Ev> {
    let mut events = window(sx, sy, ex, ey);
    events.push(Ev::Cmd(0x2C));
    let mut bytes: Vec<u8> = Vec::new();
    for c in colors {
        bytes.push((c >> 8) as u8);
        bytes.push((c & 0xFF) as u8);
    }
    events.push(Ev::Data(bytes));
    events
}

fn taken(log: &Log) -> Vec<Ev> {
    log.borrow().clone()
}

#[test]
fn command_opcodes_match_protocol_table() {
    assert_eq!(Command::NOP.opcode(), 0x00);
    assert_eq!(Command::SWRESET.opcode(), 0x01);
    assert_eq!(Command::SLPOUT.opcode(), 0x11);
    assert_eq!(Command::NORON.opcode(), 0x13);
    assert_eq!(Command::INVOFF.opcode(), 0x20);
    assert_eq!(Command::INVON.opcode(), 0x21);
    assert_eq!(Command::DISPON.opcode(), 0x29);
    assert_eq!(Command::CASET.opcode(), 0x2A);
    assert_eq!(Command::PASET.opcode(), 0x2B);
    assert_eq!(Command::RAMWR.opcode(), 0x2C);
    assert_eq!(Command::VSCRDEF.opcode(), 0x33);
    assert_eq!(Command::MADCTL.opcode(), 0x36);
    assert_eq!(Command::VSCRSADD.opcode(), 0x37);
    assert_eq!(Command::PIXFMT.opcode(), 0x3A);
}

#[test]
fn madctl_bytes_for_each_orientation() {
    assert_eq!(Orientation::Portrait.madctl(), 0x00);
    assert_eq!(Orientation::Landscape.madctl(), 0x60);
    assert_eq!(Orientation::PortraitSwapped.madctl(), 0xC0);
    assert_eq!(Orientation::LandscapeSwapped.madctl(), 0xA0);
}

#[test]
fn size_returns_constructed_values_verbatim() {
    // Visible size 320x480 with the default (landscape) orientation: the
    // stored size is reported as supplied, never auto-corrected.
    let (driver, _, _) = rig(false, false);
    assert_eq!(driver.orientation(), Orientation::Landscape);
    assert_eq!(driver.size(), (320, 480));
}

#[test]
fn set_orientation_roundtrip_all_values() {
    for o in [
        Orientation::Portrait,
        Orientation::Landscape,
        Orientation::PortraitSwapped,
        Orientation::LandscapeSwapped,
    ] {
        let (mut driver, _, log) = rig(false, false);
        driver.set_orientation(o).unwrap();
        assert_eq!(driver.orientation(), o);
        assert_eq!(taken(&log), vec![Ev::Cmd(0x36), Ev::Data(vec![o.madctl()])]);
    }
}

#[test]
fn set_orientation_failure_keeps_stored_value() {
    let mut driver = failing_bus_rig();
    let before = driver.orientation();
    let result = driver.set_orientation(Orientation::PortraitSwapped);
    assert!(matches!(result, Err(Error::DisplayError)));
    assert_eq!(driver.orientation(), before);
}

#[test]
fn set_pixel_sends_window_then_color_word() {
    let (mut driver, _, log) = rig(false, false);
    driver.set_pixel(7, 11, 0xABCD).unwrap();
    assert_eq!(taken(&log), burst(7, 11, 7, 11, &[0xABCD]));
}

#[test]
fn set_pixel_matches_singleton_set_pixels() {
    // A single-pixel write and a one-pixel windowed burst are the same
    // opcode/byte sequence.
    let (mut one, _, log_one) = rig(false, false);
    let (mut many, _, log_many) = rig(false, false);
    one.set_pixel(42, 99, 0x55AA).unwrap();
    many.set_pixels(42, 99, 42, 99, &[0x55AA]).unwrap();
    assert_eq!(taken(&log_one), taken(&log_many));
}

#[test]
fn set_pixels_streams_words_in_order() {
    let (mut driver, _, log) = rig(false, false);
    driver.set_pixels(1, 2, 3, 3, &[0x0102, 0x0304, 0x0506]).unwrap();
    assert_eq!(taken(&log), burst(1, 2, 3, 3, &[0x0102, 0x0304, 0x0506]));
}

#[test]
fn address_window_bytes_are_big_endian() {
    let (mut driver, _, log) = rig(false, false);
    driver.set_pixels(0x0102, 0x0304, 0x0506, 0x0708, &[]).unwrap();
    let events = taken(&log);
    assert_eq!(events[1], Ev::Data(vec![0x01, 0x02]));
    assert_eq!(events[2], Ev::Data(vec![0x05, 0x06]));
    assert_eq!(events[4], Ev::Data(vec![0x03, 0x04]));
    assert_eq!(events[5], Ev::Data(vec![0x07, 0x08]));
}

#[test]
fn set_scroll_offset_sends_big_endian_offset() {
    let (mut driver, _, log) = rig(false, false);
    driver.set_scroll_offset(0x1234).unwrap();
    assert_eq!(taken(&log), vec![Ev::Cmd(0x37), Ev::Data(vec![0x12, 0x34])]);
}

#[test]
fn set_tearing_effect_variants() {
    let (mut driver, _, log) = rig(false, false);
    driver.set_tearing_effect(TearingEffect::Off).unwrap();
    driver.set_tearing_effect(TearingEffect::Vertical).unwrap();
    driver.set_tearing_effect(TearingEffect::HorizontalVertical).unwrap();
    assert_eq!(
        taken(&log),
        vec![
            Ev::Cmd(0x34),
            Ev::Cmd(0x35),
            Ev::Data(vec![0]),
            Ev::Cmd(0x35),
            Ev::Data(vec![1]),
        ]
    );
}

#[test]
fn hard_reset_pulses_reset_pin() {
    let (mut driver, mut delay, log) = rig(true, false);
    driver.hard_reset(&mut delay).unwrap();
    assert_eq!(
        taken(&log),
        vec![
            Ev::Rst(true),
            Ev::Wait(10),
            Ev::Rst(false),
            Ev::Wait(10),
            Ev::Rst(true),
            Ev::Wait(10),
        ]
    );
}

#[test]
fn hard_reset_without_pin_is_noop_success() {
    let (mut driver, mut delay, log) = rig(false, false);
    driver.hard_reset(&mut delay).unwrap();
    assert!(taken(&log).is_empty());
}

#[test]
fn hard_reset_pin_failure_is_pin_error() {
    let log: Log = Rc::new(RefCell::new(Vec::new()));
    let bus = MockBus { log: log.clone(), fail: false };
    let rst = Some(MockRst { log: log.clone(), fail: true });
    let mut delay = MockDelay { log: log.clone() };
    let mut driver: Driver = ST7796::new(bus, rst, None, 320, 480);
    let result = driver.hard_reset(&mut delay);
    assert!(matches!(result, Err(Error::Pin(7))));
    assert!(taken(&log).is_empty());
}

#[test]
fn set_backlight_drives_pin_and_waits() {
    let (mut driver, mut delay, log) = rig(false, true);
    driver.set_backlight(BacklightState::ON, &mut delay).unwrap();
    driver.set_backlight(BacklightState::OFF, &mut delay).unwrap();
    assert_eq!(
        taken(&log),
        vec![Ev::Bl(true), Ev::Wait(10), Ev::Bl(false), Ev::Wait(10)]
    );
}

#[test]
fn set_backlight_without_pin_is_noop_success() {
    let (mut driver, mut delay, log) = rig(false, false);
    driver.set_backlight(BacklightState::ON, &mut delay).unwrap();
    assert!(taken(&log).is_empty());
}

#[test]
fn init_full_sequence_with_both_pins() {
    // Reset pulse, backlight power-on, then the fixed command sequence
    // with the datasheet-mandated settle delays, in order.
    let (mut driver, mut delay, log) = rig(true, true);
    driver.init(&mut delay).unwrap();
    assert_eq!(
        taken(&log),
        vec![
            Ev::Rst(true),
            Ev::Wait(10),
            Ev::Rst(false),
            Ev::Wait(10),
            Ev::Rst(true),
            Ev::Wait(10),
            Ev::Bl(false),
            Ev::Wait(10_000),
            Ev::Bl(true),
            Ev::Cmd(0x01),
            Ev::Wait(150_000),
            Ev::Cmd(0x11),
            Ev::Wait(10_000),
            Ev::Cmd(0x20),
            Ev::Cmd(0x33),
            Ev::Data(vec![0, 0, 0x1E, 0, 0, 0]),
            Ev::Cmd(0x36),
            Ev::Data(vec![0x00]),
            Ev::Cmd(0x3A),
            Ev::Data(vec![0x55]),
            Ev::Cmd(0x21),
            Ev::Wait(10_000),
            Ev::Cmd(0x13),
            Ev::Wait(10_000),
            Ev::Cmd(0x29),
            Ev::Wait(10_000),
        ]
    );
}

#[test]
fn init_without_pins_sends_commands_only() {
    let (mut driver, mut delay, log) = rig(false, false);
    driver.init(&mut delay).unwrap();
    let events = taken(&log);
    assert_eq!(events[0], Ev::Cmd(0x01));
    let commands: Vec<u8> = events
        .iter()
        .filter_map(|e| match e {
            Ev::Cmd(op) => Some(*op),
            _ => None,
        })
        .collect();
    assert_eq!(
        commands,
        vec![0x01, 0x11, 0x20, 0x33, 0x36, 0x3A, 0x21, 0x13, 0x29]
    );
}

#[test]
fn init_aborts_on_bus_failure() {
    let mut driver = failing_bus_rig();
    let log: Log = Rc::new(RefCell::new(Vec::new()));
    let mut delay = MockDelay { log };
    let result = driver.init(&mut delay);
    assert!(matches!(result, Err(Error::DisplayError)));
}

#[test]
fn fill_solid_outside_bounding_box_is_noop() {
    // Landscape RAM is 480x320: rectangles fully outside it write nothing
    // and succeed.
    let (mut driver, _, log) = rig(false, false);
    let below = Rect { x: 0, y: 320, width: 10, height: 10 };
    let right = Rect { x: 480, y: 0, width: 5, height: 5 };
    let negative = Rect { x: -20, y: -20, width: 10, height: 10 };
    driver.fill_solid(&below, 0xFFFF).unwrap();
    driver.fill_solid(&right, 0xFFFF).unwrap();
    driver.fill_solid(&negative, 0xFFFF).unwrap();
    assert!(taken(&log).is_empty());
}

#[test]
fn fill_contiguous_outside_bounding_box_is_noop() {
    let (mut driver, _, log) = rig(false, false);
    let outside = Rect { x: -100, y: 500, width: 50, height: 50 };
    driver.fill_contiguous(&outside, &[1, 2, 3]).unwrap();
    assert!(taken(&log).is_empty());
}

#[test]
fn fill_solid_clips_to_bounding_box() {
    // x in [470, 500) and y in [-5, 5) clips to the 10x5 window
    // [470, 479] x [0, 4]: exactly 50 color words are sent.
    let (mut driver, _, log) = rig(false, false);
    let area = Rect { x: 470, y: -5, width: 30, height: 10 };
    driver.fill_solid(&area, 0x1234).unwrap();
    let expected: Vec<u16> = vec![0x1234; 50];
    assert_eq!(taken(&log), burst(470, 0, 479, 4, &expected));
}

#[test]
fn fill_contiguous_caps_oversupply() {
    // The clipped window holds 50 pixels; a 1000-word supply is capped to
    // its first 50 words, and the rest are dropped.
    let (mut driver, _, log) = rig(false, false);
    let area = Rect { x: 470, y: -5, width: 30, height: 10 };
    let supply: Vec<u16> = (0..1000).collect();
    driver.fill_contiguous(&area, &supply).unwrap();
    let expected: Vec<u16> = (0..50).collect();
    assert_eq!(taken(&log), burst(470, 0, 479, 4, &expected));
}

#[test]
fn fill_contiguous_forwards_short_supply_as_given() {
    // A supply shorter than the window is forwarded as-is (the window is
    // left incomplete; supplying enough words is the caller's contract).
    let (mut driver, _, log) = rig(false, false);
    let area = Rect { x: 0, y: 0, width: 10, height: 5 };
    driver.fill_contiguous(&area, &[0xA, 0xB, 0xC]).unwrap();
    assert_eq!(taken(&log), burst(0, 0, 9, 4, &[0xA, 0xB, 0xC]));
}

#[test]
fn clear_landscape_covers_full_ram() {
    // Landscape: window x in [0, 479], y in [0, 319], and exactly
    // 153 600 repetitions of the color word.
    let (mut driver, _, log) = rig(false, false);
    driver.clear(0x8765).unwrap();
    let events = taken(&log);
    assert_eq!(events[0..6].to_vec(), window(0, 0, 479, 319));
    assert_eq!(events[6], Ev::Cmd(0x2C));
    match &events[7] {
        Ev::Data(bytes) => {
            assert_eq!(bytes.len(), 2 * 153_600);
            assert!(bytes.chunks(2).all(|pair| pair == [0x87, 0x65]));
        }
        other => panic!("expected a data transfer, got {:?}", other),
    }
    assert_eq!(events.len(), 8);
}

#[test]
fn clear_portrait_covers_full_ram() {
    let (mut driver, _, log) = rig(false, false);
    driver.set_orientation(Orientation::Portrait).unwrap();
    log.borrow_mut().clear();
    driver.clear(0x0001).unwrap();
    let events = taken(&log);
    assert_eq!(events[0..6].to_vec(), window(0, 0, 319, 479));
    assert_eq!(events[6], Ev::Cmd(0x2C));
    match &events[7] {
        Ev::Data(bytes) => {
            assert_eq!(bytes.len(), 2 * 153_600);
            assert!(bytes.chunks(2).all(|pair| pair == [0x00, 0x01]));
        }
        other => panic!("expected a data transfer, got {:?}", other),
    }
}

#[test]
fn draw_iter_skips_points_outside_ram() {
    let (mut driver, _, log) = rig(false, false);
    let pixels = [
        Pixel { x: -1, y: 5, color: 0xAAAA },
        Pixel { x: 0, y: 0, color: 0xBBBB },
        Pixel { x: 480, y: 10, color: 0xCCCC },
        Pixel { x: 479, y: 319, color: 0xDDDD },
        Pixel { x: 100, y: 320, color: 0xEEEE },
    ];
    driver.draw_iter(&pixels).unwrap();
    let mut expected = burst(0, 0, 0, 0, &[0xBBBB]);
    expected.extend(burst(479, 319, 479, 319, &[0xDDDD]));
    assert_eq!(taken(&log), expected);
}

#[test]
fn bus_failure_surfaces_as_display_error() {
    let mut driver = failing_bus_rig();
    assert!(matches!(driver.set_pixel(0, 0, 0), Err(Error::DisplayError)));
    assert!(matches!(driver.set_pixels(0, 0, 1, 1, &[1, 2, 3, 4]), Err(Error::DisplayError)));
    assert!(matches!(driver.set_scroll_offset(0), Err(Error::DisplayError)));
}

#[test]
fn release_returns_channel_and_pins() {
    let (driver, _, log) = rig(true, true);
    let (mut bus, rst, bl) = driver.release();
    assert!(rst.is_some());
    assert!(bl.is_some());
    bus.send_command(0x00).unwrap();
    assert_eq!(taken(&log), vec![Ev::Cmd(0x00)]);
}

#[test]
fn framebuffer_bounding_box_follows_orientation() {
    let (mut driver, _, _) = rig(false, false);
    assert_eq!(
        driver.framebuffer_bounding_box(),
        Rect { x: 0, y: 0, width: 480, height: 320 }
    );
    driver.set_orientation(Orientation::PortraitSwapped).unwrap();
    assert_eq!(
        driver.framebuffer_bounding_box(),
        Rect { x: 0, y: 0, width: 320, height: 480 }
    );
}

#[test]
fn rect_intersection_partial_overlap() {
    let a = Rect { x: -10, y: 5, width: 30, height: 30 };
    let b = Rect { x: 0, y: 0, width: 10, height: 10 };
    assert_eq!(a.intersection(&b), Rect { x: 0, y: 5, width: 10, height: 5 });
}

#[test]
fn rect_intersection_disjoint_is_all_zero() {
    let a = Rect { x: 100, y: 100, width: 10, height: 10 };
    let b = Rect { x: 0, y: 0, width: 10, height: 10 };
    assert_eq!(a.intersection(&b), Rect { x: 0, y: 0, width: 0, height: 0 });
    assert!(a.intersection(&b).is_empty());
}

#[test]
fn rect_contains_is_inclusive_exclusive() {
    let r = Rect { x: 0, y: 0, width: 480, height: 320 };
    assert!(r.contains(0, 0));
    assert!(r.contains(479, 319));
    assert!(!r.contains(480, 0));
    assert!(!r.contains(0, 320));
    assert!(!r.contains(-1, 0));
}

#[test]
fn recording_bus_records_exact_transfers() {
    let mut bus = RecordingBus::new();
    bus.send_command(0x2A).unwrap();
    bus.send_data(&[1, 2, 3]).unwrap();
    assert_eq!(
        bus.writes(),
        &vec![RecordedWrite::Command(0x2A), RecordedWrite::Data(vec![1, 2, 3])]
    );
}

#[test]
fn recording_collaborators_drive_the_protocol() {
    let mut driver = ST7796::new(
        RecordingBus::new(),
        Some(RecordingPin::new()),
        Some(RecordingPin::new()),
        320,
        480,
    );
    let mut delay = RecordingDelay::new();
    driver.hard_reset(&mut delay).unwrap();
    driver.set_pixel(1, 2, 0x0304).unwrap();
    let (bus, rst, bl) = driver.release();
    assert_eq!(
        bus.writes(),
        &vec![
            RecordedWrite::Command(0x2A),
            RecordedWrite::Data(vec![0, 1]),
            RecordedWrite::Data(vec![0, 1]),
            RecordedWrite::Command(0x2B),
            RecordedWrite::Data(vec![0, 2]),
            RecordedWrite::Data(vec![0, 2]),
            RecordedWrite::Command(0x2C),
            RecordedWrite::Data(vec![3, 4]),
        ]
    );
    let rst_pin = rst.unwrap();
    assert_eq!(rst_pin.driven(), &vec![Level::High, Level::Low, Level::High]);
    let bl_pin = bl.unwrap();
    assert!(bl_pin.driven().is_empty());
    assert_eq!(delay.waits(), &vec![10, 10, 10]);
}

#[test]
fn failure_stops_at_first_rejected_transfer() {
    // The second transfer of the address window is rejected: exactly the
    // first transfer reaches the log and nothing follows it.
    let log: Log = Rc::new(RefCell::new(Vec::new()));
    let bus = FlakyBus { log: log.clone(), accept: 1 };
    let mut driver: ST7796<FlakyBus, MockRst, MockBl> = ST7796::new(bus, None, None, 320, 480);
    let result = driver.set_pixel(3, 4, 0x0506);
    assert!(matches!(result, Err(Error::DisplayError)));
    assert_eq!(taken(&log), vec![Ev::Cmd(0x2A)]);
}

#[test]
fn set_pixels_failure_sends_no_color_words() {
    // The memory-write opcode is rejected: the window was sent, but no
    // color word follows the failing transfer.
    let log: Log = Rc::new(RefCell::new(Vec::new()));
    let bus = FlakyBus { log: log.clone(), accept: 6 };
    let mut driver: ST7796<FlakyBus, MockRst, MockBl> = ST7796::new(bus, None, None, 320, 480);
    let result = driver.set_pixels(0, 0, 1, 1, &[1, 2, 3, 4]);
    assert!(matches!(result, Err(Error::DisplayError)));
    assert_eq!(taken(&log), window(0, 0, 1, 1));
}

#[test]
fn init_failure_stops_command_sequence() {
    // The third command of initialization is rejected: both pins saw
    // their full sequences, the bus log ends at the failing command, and
    // no later delay of the sequence is performed.
    let log: Log = Rc::new(RefCell::new(Vec::new()));
    let bus = FlakyBus { log: log.clone(), accept: 2 };
    let rst = Some(MockRst { log: log.clone(), fail: false });
    let bl = Some(MockBl { log: log.clone(), fail: false });
    let mut delay = MockDelay { log: log.clone() };
    let mut driver: ST7796<FlakyBus, MockRst, MockBl> = ST7796::new(bus, rst, bl, 320, 480);
    let result = driver.init(&mut delay);
    assert!(matches!(result, Err(Error::DisplayError)));
    assert_eq!(
        taken(&log),
        vec![
            Ev::Rst(true),
            Ev::Wait(10),
            Ev::Rst(false),
            Ev::Wait(10),
            Ev::Rst(true),
            Ev::Wait(10),
            Ev::Bl(false),
            Ev::Wait(10_000),
            Ev::Bl(true),
            Ev::Cmd(0x01),
            Ev::Wait(150_000),
            Ev::Cmd(0x11),
            Ev::Wait(10_000),
        ]
    );
}

#[test]
fn draw_iter_with_no_in_bounds_points_succeeds() {
    // Points all outside the physical RAM rectangle, and the empty
    // slice: no transfer is attempted and the draw succeeds, even on a
    // transport that rejects everything.
    let log: Log = Rc::new(RefCell::new(Vec::new()));
    let bus = MockBus { log: log.clone(), fail: true };
    let mut driver: Driver = ST7796::new(bus, None, None, 320, 480);
    driver.draw_iter(&[]).unwrap();
    let outside = [
        Pixel { x: -1, y: 0, color: 1 },
        Pixel { x: 480, y: 0, color: 2 },
        Pixel { x: 0, y: 320, color: 3 },
    ];
    driver.draw_iter(&outside).unwrap();
    assert!(taken(&log).is_empty());
}
