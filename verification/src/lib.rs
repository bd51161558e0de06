#![allow(non_camel_case_types)]

//! Driver for the ST7796S TFT display controller.
//!
//! The driver turns pixel-drawing requests into the exact byte traffic the
//! controller expects on its command/data channel: an addressing window
//! followed by a stream of big-endian 16-bit color words. It is generic
//! over the transport, the optional reset and backlight pins, and the
//! delay provider (the traits of [`interface`]), and each operation's
//! contract states precisely which transfers, pin levels and waits it
//! produces.

pub mod geometry;
pub mod instruction;
pub mod interface;

pub mod graphics;

use vstd::prelude::*;

use crate::instruction::Command;
use crate::interface::{
    appended_prefix, be16, lemma_appended_prefix, words_be, Bus, BusWrite, Delay, Level, OutPin,
};

verus! {

/// Display orientation: the four scan orders the controller supports,
/// each bound to its memory-access-control register pattern.
#[derive(Clone, Copy, Debug, PartialEq, Eq, Structural)]
pub enum Orientation {
    /// No inversion: 320 columns by 480 rows.
    Portrait,
    /// Column order and row/column exchange inverted: 480 by 320.
    Landscape,
    /// Row and column order inverted: 320 by 480.
    PortraitSwapped,
    /// Row order and row/column exchange inverted: 480 by 320.
    LandscapeSwapped,
}

impl Orientation {
    /// The memory-access-control register byte for this orientation.
    pub open spec fn spec_madctl(self) -> u8 {
        match self {
            Orientation::Portrait => 0b0000_0000,
            Orientation::Landscape => 0b0110_0000,
            Orientation::PortraitSwapped => 0b1100_0000,
            Orientation::LandscapeSwapped => 0b1010_0000,
        }
    }

    /// The memory-access-control register byte for this orientation.
    #[verifier::when_used_as_spec(spec_madctl)]
    pub fn madctl(self) -> (r: u8)
        ensures
            r == self.spec_madctl(),
    {
        match self {
            Orientation::Portrait => 0b0000_0000,
            Orientation::Landscape => 0b0110_0000,
            Orientation::PortraitSwapped => 0b1100_0000,
            Orientation::LandscapeSwapped => 0b1010_0000,
        }
    }

    /// Width in pixels of the controller's physical RAM rectangle under
    /// this orientation (independent of the visible size).
    pub open spec fn spec_fb_width(self) -> u16 {
        match self {
            Orientation::Portrait | Orientation::PortraitSwapped => 320,
            Orientation::Landscape | Orientation::LandscapeSwapped => 480,
        }
    }

    /// Width in pixels of the controller's physical RAM rectangle under
    /// this orientation.
    #[verifier::when_used_as_spec(spec_fb_width)]
    pub fn fb_width(self) -> (r: u16)
        ensures
            r == self.spec_fb_width(),
    {
        match self {
            Orientation::Portrait | Orientation::PortraitSwapped => 320,
            Orientation::Landscape | Orientation::LandscapeSwapped => 480,
        }
    }

    /// Height in pixels of the controller's physical RAM rectangle under
    /// this orientation.
    pub open spec fn spec_fb_height(self) -> u16 {
        match self {
            Orientation::Portrait | Orientation::PortraitSwapped => 480,
            Orientation::Landscape | Orientation::LandscapeSwapped => 320,
        }
    }

    /// Height in pixels of the controller's physical RAM rectangle under
    /// this orientation.
    #[verifier::when_used_as_spec(spec_fb_height)]
    pub fn fb_height(self) -> (r: u16)
        ensures
            r == self.spec_fb_height(),
    {
        match self {
            Orientation::Portrait | Orientation::PortraitSwapped => 480,
            Orientation::Landscape | Orientation::LandscapeSwapped => 320,
        }
    }
}

impl Default for Orientation {
    /// The default orientation is landscape.
    fn default() -> (r: Self)
        ensures
            r == Orientation::Landscape,
    {
        Orientation::Landscape
    }
}

/// Tearing effect output setting.
#[derive(Clone, Copy, Debug)]
pub enum TearingEffect {
    /// Disable the output.
    Off,
    /// Output vertical blanking information.
    Vertical,
    /// Output horizontal and vertical blanking information.
    HorizontalVertical,
}

/// Backlight state setting.
#[derive(Clone, Copy, Debug)]
pub enum BacklightState {
    ON,
    OFF,
}

/// Error referring to its source: the transport or a pin.
#[derive(Debug)]
pub enum Error<PinE> {
    /// A command or data transfer was rejected by the transport.
    DisplayError,
    /// The reset or backlight pin failed, carrying the pin's own error.
    Pin(PinE),
}

/// The transfers of one address-window setup: the column-address-set
/// opcode with the big-endian start and end columns, then the
/// row-address-set opcode with the big-endian start and end rows.
pub open spec fn window_writes(sx: u16, sy: u16, ex: u16, ey: u16) -> Seq<BusWrite> {
    seq![
        BusWrite::Command(Command::CASET.spec_opcode()),
        BusWrite::Data(be16(sx)),
        BusWrite::Data(be16(ex)),
        BusWrite::Command(Command::PASET.spec_opcode()),
        BusWrite::Data(be16(sy)),
        BusWrite::Data(be16(ey)),
    ]
}

/// The transfers of one windowed pixel burst: the address window, the
/// memory-write opcode, then every color word as two big-endian bytes.
pub open spec fn burst_writes(sx: u16, sy: u16, ex: u16, ey: u16, colors: Seq<u16>) -> Seq<
    BusWrite,
> {
    window_writes(sx, sy, ex, ey) + seq![
        BusWrite::Command(Command::RAMWR.spec_opcode()),
        BusWrite::Data(words_be(colors)),
    ]
}

/// The transfers of one single-pixel write: a one-point address window,
/// the memory-write opcode, then the color word's two big-endian bytes.
pub open spec fn single_pixel_writes(x: u16, y: u16, color: u16) -> Seq<BusWrite> {
    window_writes(x, y, x, y) + seq![
        BusWrite::Command(Command::RAMWR.spec_opcode()),
        BusWrite::Data(be16(color)),
    ]
}

/// Writing one pixel is the same traffic as a windowed burst over the
/// one-point rectangle with a single color word: [`ST7796::set_pixel`]
/// and [`ST7796::set_pixels`] with one color produce identical transfer
/// sequences.
pub proof fn lemma_single_pixel_is_singleton_burst(x: u16, y: u16, color: u16)
    ensures
        single_pixel_writes(x, y, color) == burst_writes(x, y, x, y, seq![color]),
{
    let s = seq![color];
    assert(s.drop_last() =~= Seq::<u16>::empty());
    assert(words_be(Seq::<u16>::empty()) == Seq::<u8>::empty());
    assert(words_be(s) =~= be16(color));
    assert(single_pixel_writes(x, y, color) =~~= burst_writes(x, y, x, y, s));
}

/// The transfers a windowed burst has made when it fails: at most the
/// address window and the memory-write opcode. A rejected burst never
/// puts a color word on the bus.
pub open spec fn burst_setup_writes(sx: u16, sy: u16, ex: u16, ey: u16) -> Seq<BusWrite> {
    window_writes(sx, sy, ex, ey).push(BusWrite::Command(Command::RAMWR.spec_opcode()))
}

/// The transfers of one orientation update: the memory-access-control
/// opcode with the orientation's register byte as payload.
pub open spec fn madctl_writes(orientation: Orientation) -> Seq<BusWrite> {
    seq![
        BusWrite::Command(Command::MADCTL.spec_opcode()),
        BusWrite::Data(seq![orientation.spec_madctl()]),
    ]
}

/// The transfers of one scroll-offset update: the vertical-scroll-start
/// opcode with the big-endian offset as payload.
pub open spec fn scroll_offset_writes(offset: u16) -> Seq<BusWrite> {
    seq![BusWrite::Command(Command::VSCRSADD.spec_opcode()), BusWrite::Data(be16(offset))]
}

/// The transfers of one tearing-effect update.
pub open spec fn tearing_writes(tearing_effect: TearingEffect) -> Seq<BusWrite> {
    match tearing_effect {
        TearingEffect::Off => seq![BusWrite::Command(Command::TEOFF.spec_opcode())],
        TearingEffect::Vertical => seq![
            BusWrite::Command(Command::TEON.spec_opcode()),
            BusWrite::Data(seq![0u8]),
        ],
        TearingEffect::HorizontalVertical => seq![
            BusWrite::Command(Command::TEON.spec_opcode()),
            BusWrite::Data(seq![1u8]),
        ],
    }
}

/// The levels of one hardware reset pulse on the reset pin.
pub open spec fn reset_pulse_levels() -> Seq<Level> {
    seq![Level::High, Level::Low, Level::High]
}

/// The waits of one hardware reset pulse, in microseconds.
pub open spec fn reset_pulse_delays() -> Seq<u32> {
    seq![10u32, 10u32, 10u32]
}

/// The level the backlight pin is driven to for a backlight state.
pub open spec fn backlight_level(state: BacklightState) -> Level {
    match state {
        BacklightState::ON => Level::High,
        BacklightState::OFF => Level::Low,
    }
}

/// The levels initialization drives the backlight pin to: low, then high
/// once the display has settled.
pub open spec fn backlight_power_on_levels() -> Seq<Level> {
    seq![Level::Low, Level::High]
}

/// The fixed power-on command sequence: software reset, sleep out, invert
/// off, the vertical scroll definition (zero fixed areas around a 480-row
/// scroll area), the default memory-access-control byte, 16-bit pixel
/// format, invert on, normal display mode on, display on.
pub open spec fn init_writes() -> Seq<BusWrite> {
    seq![
        BusWrite::Command(Command::SWRESET.spec_opcode()),
        BusWrite::Command(Command::SLPOUT.spec_opcode()),
        BusWrite::Command(Command::INVOFF.spec_opcode()),
        BusWrite::Command(Command::VSCRDEF.spec_opcode()),
        BusWrite::Data(seq![0u8, 0u8, 0x1Eu8, 0u8, 0u8, 0u8]),
        BusWrite::Command(Command::MADCTL.spec_opcode()),
        BusWrite::Data(seq![0u8]),
        BusWrite::Command(Command::PIXFMT.spec_opcode()),
        BusWrite::Data(seq![0x55u8]),
        BusWrite::Command(Command::INVON.spec_opcode()),
        BusWrite::Command(Command::NORON.spec_opcode()),
        BusWrite::Command(Command::DISPON.spec_opcode()),
    ]
}

/// The waits of one initialization, in order and in microseconds: the
/// reset pulse's (when a reset pin is present), the backlight settle wait
/// (when a backlight pin is present), then the datasheet-mandated settle
/// delays of the command sequence.
pub open spec fn init_delays(has_rst: bool, has_bl: bool) -> Seq<u32> {
    (if has_rst {
        reset_pulse_delays()
    } else {
        Seq::empty()
    }) + (if has_bl {
        seq![10_000u32]
    } else {
        Seq::empty()
    }) + seq![150_000u32, 10_000u32, 10_000u32, 10_000u32, 10_000u32]
}

/// On a failed hard reset the pulse stopped at its first rejected drive:
/// the reset pin saw some strict prefix of the pulse's levels, the delay
/// provider the matching prefix of its waits, and nothing more.
pub open spec fn reset_stopped(
    pre_levels: Seq<Level>,
    post_levels: Seq<Level>,
    pre_delays: Seq<u32>,
    post_delays: Seq<u32>,
) -> bool {
    exists|k: int|
        0 <= k < reset_pulse_levels().len() && post_levels == pre_levels
            + #[trigger] reset_pulse_levels().take(k) && post_delays == pre_delays
            + reset_pulse_delays().take(k)
}

/// Packages the failure shape of an initialization interrupted after its
/// pin phases completed: the bus stopped after `kb` transfers, the delay
/// provider after `kd` waits, and every history is the old one plus a
/// prefix of what initialization intended for it.
proof fn lemma_init_stopped(
    has_rst: bool,
    has_bl: bool,
    bus0: Seq<BusWrite>,
    bus1: Seq<BusWrite>,
    rst0: Seq<Level>,
    rst1: Seq<Level>,
    bl0: Seq<Level>,
    bl1: Seq<Level>,
    delays0: Seq<u32>,
    delays1: Seq<u32>,
    kb: int,
    kd: int,
)
    requires
        0 <= kb <= init_writes().len(),
        0 <= kd <= init_delays(has_rst, has_bl).len(),
        bus1 == bus0 + init_writes().take(kb),
        has_rst ==> rst1 == rst0 + reset_pulse_levels(),
        !has_rst ==> rst1 == rst0,
        has_bl ==> bl1 == bl0 + backlight_power_on_levels(),
        !has_bl ==> bl1 == bl0,
        delays1 == delays0 + init_delays(has_rst, has_bl).take(kd),
    ensures
        appended_prefix(bus0, bus1, init_writes()),
        appended_prefix(
            rst0,
            rst1,
            if has_rst {
                reset_pulse_levels()
            } else {
                Seq::<Level>::empty()
            },
        ),
        appended_prefix(
            bl0,
            bl1,
            if has_bl {
                backlight_power_on_levels()
            } else {
                Seq::<Level>::empty()
            },
        ),
        appended_prefix(delays0, delays1, init_delays(has_rst, has_bl)),
{
    lemma_appended_prefix(bus0, bus1, init_writes(), kb);
    lemma_appended_prefix(delays0, delays1, init_delays(has_rst, has_bl), kd);
    if has_rst {
        assert(rst1 =~= rst0 + reset_pulse_levels().take(3));
        lemma_appended_prefix(rst0, rst1, reset_pulse_levels(), 3);
    } else {
        assert(rst1 =~= rst0 + Seq::<Level>::empty().take(0));
        lemma_appended_prefix(rst0, rst1, Seq::<Level>::empty(), 0);
    }
    if has_bl {
        assert(bl1 =~= bl0 + backlight_power_on_levels().take(2));
        lemma_appended_prefix(bl0, bl1, backlight_power_on_levels(), 2);
    } else {
        assert(bl1 =~= bl0 + Seq::<Level>::empty().take(0));
        lemma_appended_prefix(bl0, bl1, Seq::<Level>::empty(), 0);
    }
}

/// ST7796S driver. It exclusively owns the command/data channel and the
/// optional reset and backlight pins until [`ST7796::release`], and stores
/// the caller-supplied visible size and the current orientation.
pub struct ST7796<DI, RST, BL> where DI: Bus, RST: OutPin, BL: OutPin {
    /// Display interface (the command/data channel).
    di: DI,
    /// Reset pin.
    rst: Option<RST>,
    /// Backlight pin.
    bl: Option<BL>,
    /// Visible size, x axis.
    size_x: u16,
    /// Visible size, y axis.
    size_y: u16,
    /// Current orientation.
    orientation: Orientation,
}

impl<DI, RST, BL> ST7796<DI, RST, BL> where DI: Bus, RST: OutPin, BL: OutPin {
    /// The transfers the transport has accepted so far.
    pub closed spec fn bus_history(self) -> Seq<BusWrite> {
        self.di.history()
    }

    /// Whether a reset pin is present.
    pub closed spec fn has_rst(self) -> bool {
        self.rst is Some
    }

    /// Whether a backlight pin is present.
    pub closed spec fn has_bl(self) -> bool {
        self.bl is Some
    }

    /// The levels the reset pin has been driven to (empty when absent).
    pub closed spec fn rst_levels(self) -> Seq<Level> {
        match self.rst {
            Some(pin) => pin.levels(),
            None => Seq::empty(),
        }
    }

    /// The levels the backlight pin has been driven to (empty when absent).
    pub closed spec fn bl_levels(self) -> Seq<Level> {
        match self.bl {
            Some(pin) => pin.levels(),
            None => Seq::empty(),
        }
    }

    /// The stored orientation.
    pub closed spec fn spec_orientation(self) -> Orientation {
        self.orientation
    }

    /// The stored visible size, x then y.
    pub closed spec fn spec_size(self) -> (u16, u16) {
        (self.size_x, self.size_y)
    }

    /// Neither pin was touched: presence and level histories are as before.
    pub open spec fn unchanged_pins(pre: Self, post: Self) -> bool {
        &&& post.has_rst() == pre.has_rst()
        &&& post.rst_levels() == pre.rst_levels()
        &&& post.has_bl() == pre.has_bl()
        &&& post.bl_levels() == pre.bl_levels()
    }

    /// Pins, visible size and orientation are all as before.
    pub open spec fn unchanged_frame(pre: Self, post: Self) -> bool {
        &&& Self::unchanged_pins(pre, post)
        &&& post.spec_size() == pre.spec_size()
        &&& post.spec_orientation() == pre.spec_orientation()
    }
}

impl<DI, RST, BL, PinE> ST7796<DI, RST, BL> where
    DI: Bus,
    RST: OutPin<Fault = PinE>,
    BL: OutPin<Fault = PinE>,
 {
    /// Creates a new driver instance that owns the given channel and pins,
    /// stores the given visible size verbatim, and starts in the default
    /// orientation.
    pub fn new(di: DI, rst: Option<RST>, bl: Option<BL>, size_x: u16, size_y: u16) -> (r: Self)
        ensures
            r.bus_history() == di.history(),
            r.has_rst() == (rst is Some),
            rst matches Some(pin) ==> r.rst_levels() == pin.levels(),
            rst is None ==> r.rst_levels() == Seq::<Level>::empty(),
            r.has_bl() == (bl is Some),
            bl matches Some(pin) ==> r.bl_levels() == pin.levels(),
            bl is None ==> r.bl_levels() == Seq::<Level>::empty(),
            r.spec_size() == (size_x, size_y),
            r.spec_orientation() == Orientation::Landscape,
    {
        Self { di, rst, bl, size_x, size_y, orientation: Orientation::default() }
    }

    /// Runs the commands that initialize the display: the hardware reset
    /// pulse, the backlight power-on sequence when a backlight pin is
    /// present, then the fixed power-on command sequence with its
    /// datasheet-mandated settle delays. The first failure aborts the
    /// remaining steps and is surfaced; the display must then be fully
    /// reinitialized.
    pub fn init<D: Delay>(&mut self, delay_source: &mut D) -> (r: Result<(), Error<PinE>>)
        ensures
            final(self).has_rst() == old(self).has_rst(),
            final(self).has_bl() == old(self).has_bl(),
            final(self).spec_size() == old(self).spec_size(),
            final(self).spec_orientation() == old(self).spec_orientation(),
            r is Ok ==> final(self).bus_history() == old(self).bus_history() + init_writes(),
            r is Ok && old(self).has_rst() ==> final(self).rst_levels() == old(self).rst_levels()
                + reset_pulse_levels(),
            r is Ok && !old(self).has_rst() ==> final(self).rst_levels() == old(
                self,
            ).rst_levels(),
            r is Ok && old(self).has_bl() ==> final(self).bl_levels() == old(self).bl_levels()
                + backlight_power_on_levels(),
            r is Ok && !old(self).has_bl() ==> final(self).bl_levels() == old(self).bl_levels(),
            r is Ok ==> final(delay_source).delays() == old(delay_source).delays() + init_delays(
                old(self).has_rst(),
                old(self).has_bl(),
            ),
            r is Err ==> appended_prefix(
                old(self).bus_history(),
                final(self).bus_history(),
                init_writes(),
            ),
            r is Err ==> appended_prefix(
                old(self).rst_levels(),
                final(self).rst_levels(),
                if old(self).has_rst() {
                    reset_pulse_levels()
                } else {
                    Seq::<Level>::empty()
                },
            ),
            r is Err ==> appended_prefix(
                old(self).bl_levels(),
                final(self).bl_levels(),
                if old(self).has_bl() {
                    backlight_power_on_levels()
                } else {
                    Seq::<Level>::empty()
                },
            ),
            r is Err ==> appended_prefix(
                old(delay_source).delays(),
                final(delay_source).delays(),
                init_delays(old(self).has_rst(), old(self).has_bl()),
            ),
            r matches Err(e) && e is Pin ==> final(self).bus_history() == old(self).bus_history(),
            r matches Err(e) && e is DisplayError ==> (old(self).has_rst()
                ==> final(self).rst_levels() == old(self).rst_levels() + reset_pulse_levels())
                && (!old(self).has_rst() ==> final(self).rst_levels() == old(self).rst_levels())
                && (old(self).has_bl() ==> final(self).bl_levels() == old(self).bl_levels()
                + backlight_power_on_levels()) && (!old(self).has_bl() ==> final(self).bl_levels()
                == old(self).bl_levels()),
    {
        if let Err(e) = self.hard_reset(delay_source) {
            // A pin failure: the reset pulse stopped mid-way and nothing
            // else was touched.
            proof {
                let k = choose|k: int|
                    0 <= k < reset_pulse_levels().len() && self.rst_levels() == old(
                        self,
                    ).rst_levels() + reset_pulse_levels().take(k) && delay_source.delays() == old(
                        delay_source,
                    ).delays() + reset_pulse_delays().take(k);
                assert(self.bus_history() =~~= old(self).bus_history() + init_writes().take(0));
                lemma_appended_prefix(
                    old(self).bus_history(),
                    self.bus_history(),
                    init_writes(),
                    0,
                );
                lemma_appended_prefix(
                    old(self).rst_levels(),
                    self.rst_levels(),
                    reset_pulse_levels(),
                    k,
                );
                if old(self).has_bl() {
                    assert(self.bl_levels() =~= old(self).bl_levels()
                        + backlight_power_on_levels().take(0));
                    lemma_appended_prefix(
                        old(self).bl_levels(),
                        self.bl_levels(),
                        backlight_power_on_levels(),
                        0,
                    );
                } else {
                    assert(self.bl_levels() =~= old(self).bl_levels()
                        + Seq::<Level>::empty().take(0));
                    lemma_appended_prefix(
                        old(self).bl_levels(),
                        self.bl_levels(),
                        Seq::<Level>::empty(),
                        0,
                    );
                }
                assert(delay_source.delays() =~= old(delay_source).delays() + init_delays(
                    old(self).has_rst(),
                    old(self).has_bl(),
                ).take(k));
                lemma_appended_prefix(
                    old(delay_source).delays(),
                    delay_source.delays(),
                    init_delays(old(self).has_rst(), old(self).has_bl()),
                    k,
                );
            }
            return Err(e);
        }
        match self.bl.take() {
            Some(mut pin) => {
                match pin.set_low() {
                    Ok(()) => {},
                    Err(e) => {
                        self.bl = Some(pin);
                        proof {
                        assert(self.bus_history() =~= old(self).bus_history()
                            + init_writes().take(0));
                        lemma_appended_prefix(
                            old(self).bus_history(),
                            self.bus_history(),
                            init_writes(),
                            0,
                        );
                        assert(self.bl_levels() =~= old(self).bl_levels()
                            + backlight_power_on_levels().take(0));
                        lemma_appended_prefix(
                            old(self).bl_levels(),
                            self.bl_levels(),
                            backlight_power_on_levels(),
                            0,
                        );
                        if old(self).has_rst() {
                            assert(self.rst_levels() =~= old(self).rst_levels()
                                + reset_pulse_levels().take(3));
                            lemma_appended_prefix(
                                old(self).rst_levels(),
                                self.rst_levels(),
                                reset_pulse_levels(),
                                3,
                            );
                        } else {
                            assert(self.rst_levels() =~= old(self).rst_levels()
                                + Seq::<Level>::empty().take(0));
                            lemma_appended_prefix(
                                old(self).rst_levels(),
                                self.rst_levels(),
                                Seq::<Level>::empty(),
                                0,
                            );
                        }
                        if old(self).has_rst() {
                            assert(delay_source.delays() =~= old(delay_source).delays()
                                + init_delays(old(self).has_rst(), old(self).has_bl()).take(3));
                            lemma_appended_prefix(
                                old(delay_source).delays(),
                                delay_source.delays(),
                                init_delays(old(self).has_rst(), old(self).has_bl()),
                                3,
                            );
                        } else {
                            assert(delay_source.delays() =~= old(delay_source).delays()
                                + init_delays(old(self).has_rst(), old(self).has_bl()).take(0));
                            lemma_appended_prefix(
                                old(delay_source).delays(),
                                delay_source.delays(),
                                init_delays(old(self).has_rst(), old(self).has_bl()),
                                0,
                            );
                        }
                        }
                        return Err(Error::Pin(e));
                    },
                }
                delay_source.delay_us(10_000);
                match pin.set_high() {
                    Ok(()) => {},
                    Err(e) => {
                        self.bl = Some(pin);
                        proof {
                        assert(self.bus_history() =~= old(self).bus_history()
                            + init_writes().take(0));
                        lemma_appended_prefix(
                            old(self).bus_history(),
                            self.bus_history(),
                            init_writes(),
                            0,
                        );
                        assert(self.bl_levels() =~= old(self).bl_levels()
                            + backlight_power_on_levels().take(1));
                        lemma_appended_prefix(
                            old(self).bl_levels(),
                            self.bl_levels(),
                            backlight_power_on_levels(),
                            1,
                        );
                        if old(self).has_rst() {
                            assert(self.rst_levels() =~= old(self).rst_levels()
                                + reset_pulse_levels().take(3));
                            lemma_appended_prefix(
                                old(self).rst_levels(),
                                self.rst_levels(),
                                reset_pulse_levels(),
                                3,
                            );
                        } else {
                            assert(self.rst_levels() =~= old(self).rst_levels()
                                + Seq::<Level>::empty().take(0));
                            lemma_appended_prefix(
                                old(self).rst_levels(),
                                self.rst_levels(),
                                Seq::<Level>::empty(),
                                0,
                            );
                        }
                        if old(self).has_rst() {
                            assert(delay_source.delays() =~= old(delay_source).delays()
                                + init_delays(old(self).has_rst(), old(self).has_bl()).take(4));
                            lemma_appended_prefix(
                                old(delay_source).delays(),
                                delay_source.delays(),
                                init_delays(old(self).has_rst(), old(self).has_bl()),
                                4,
                            );
                        } else {
                            assert(delay_source.delays() =~= old(delay_source).delays()
                                + init_delays(old(self).has_rst(), old(self).has_bl()).take(1));
                            lemma_appended_prefix(
                                old(delay_source).delays(),
                                delay_source.delays(),
                                init_delays(old(self).has_rst(), old(self).has_bl()),
                                1,
                            );
                        }
                        }
                        return Err(Error::Pin(e));
                    },
                }
                self.bl = Some(pin);
            },
            None => {},
        }
        proof {
            // After the pin phases, both optional pins have seen their
            // full sequences (or nothing, when absent).
            if old(self).has_bl() {
                assert(self.bl_levels() =~= old(self).bl_levels() + backlight_power_on_levels());
            }
        }
        let ghost pin_waits: int = (if old(self).has_rst() {
            3int
        } else {
            0int
        }) + (if old(self).has_bl() {
            1int
        } else {
            0int
        });
        if let Err(e) = self.write_command(Command::SWRESET) {  // reset display
            proof {
                assert(self.bus_history() =~~= old(self).bus_history() + init_writes().take(0));
                assert(delay_source.delays() =~= old(delay_source).delays() + init_delays(
                    old(self).has_rst(),
                    old(self).has_bl(),
                ).take(pin_waits + 0));
                lemma_init_stopped(
                    old(self).has_rst(),
                    old(self).has_bl(),
                    old(self).bus_history(),
                    self.bus_history(),
                    old(self).rst_levels(),
                    self.rst_levels(),
                    old(self).bl_levels(),
                    self.bl_levels(),
                    old(delay_source).delays(),
                    delay_source.delays(),
                    0,
                    pin_waits + 0,
                );
            }
            return Err(e);
        }
        delay_source.delay_us(150_000);
        if let Err(e) = self.write_command(Command::SLPOUT) {  // turn off sleep
            proof {
                assert(self.bus_history() =~~= old(self).bus_history() + init_writes().take(1));
                assert(delay_source.delays() =~= old(delay_source).delays() + init_delays(
                    old(self).has_rst(),
                    old(self).has_bl(),
                ).take(pin_waits + 1));
                lemma_init_stopped(
                    old(self).has_rst(),
                    old(self).has_bl(),
                    old(self).bus_history(),
                    self.bus_history(),
                    old(self).rst_levels(),
                    self.rst_levels(),
                    old(self).bl_levels(),
                    self.bl_levels(),
                    old(delay_source).delays(),
                    delay_source.delays(),
                    1,
                    pin_waits + 1,
                );
            }
            return Err(e);
        }
        delay_source.delay_us(10_000);
        if let Err(e) = self.write_command(Command::INVOFF) {  // turn off invert
            proof {
                assert(self.bus_history() =~~= old(self).bus_history() + init_writes().take(2));
                assert(delay_source.delays() =~= old(delay_source).delays() + init_delays(
                    old(self).has_rst(),
                    old(self).has_bl(),
                ).take(pin_waits + 2));
                lemma_init_stopped(
                    old(self).has_rst(),
                    old(self).has_bl(),
                    old(self).bus_history(),
                    self.bus_history(),
                    old(self).rst_levels(),
                    self.rst_levels(),
                    old(self).bl_levels(),
                    self.bl_levels(),
                    old(delay_source).delays(),
                    delay_source.delays(),
                    2,
                    pin_waits + 2,
                );
            }
            return Err(e);
        }
        if let Err(e) = self.write_command(Command::VSCRDEF) {  // vertical scroll definition
            proof {
                assert(self.bus_history() =~~= old(self).bus_history() + init_writes().take(3));
                assert(delay_source.delays() =~= old(delay_source).delays() + init_delays(
                    old(self).has_rst(),
                    old(self).has_bl(),
                ).take(pin_waits + 2));
                lemma_init_stopped(
                    old(self).has_rst(),
                    old(self).has_bl(),
                    old(self).bus_history(),
                    self.bus_history(),
                    old(self).rst_levels(),
                    self.rst_levels(),
                    old(self).bl_levels(),
                    self.bl_levels(),
                    old(delay_source).delays(),
                    delay_source.delays(),
                    3,
                    pin_waits + 2,
                );
            }
            return Err(e);
        }
        if let Err(e) = self.write_data(&[0u8, 0u8, 0x1Eu8, 0u8, 0u8, 0u8]) {  // 0 TFA, 480 VSA, 0 BFA
            proof {
                assert(self.bus_history() =~~= old(self).bus_history() + init_writes().take(4));
                assert(delay_source.delays() =~= old(delay_source).delays() + init_delays(
                    old(self).has_rst(),
                    old(self).has_bl(),
                ).take(pin_waits + 2));
                lemma_init_stopped(
                    old(self).has_rst(),
                    old(self).has_bl(),
                    old(self).bus_history(),
                    self.bus_history(),
                    old(self).rst_levels(),
                    self.rst_levels(),
                    old(self).bl_levels(),
                    self.bl_levels(),
                    old(delay_source).delays(),
                    delay_source.delays(),
                    4,
                    pin_waits + 2,
                );
            }
            return Err(e);
        }
        if let Err(e) = self.write_command(Command::MADCTL) {  // left -> right, bottom -> top RGB
            proof {
                assert(self.bus_history() =~~= old(self).bus_history() + init_writes().take(5));
                assert(delay_source.delays() =~= old(delay_source).delays() + init_delays(
                    old(self).has_rst(),
                    old(self).has_bl(),
                ).take(pin_waits + 2));
                lemma_init_stopped(
                    old(self).has_rst(),
                    old(self).has_bl(),
                    old(self).bus_history(),
                    self.bus_history(),
                    old(self).rst_levels(),
                    self.rst_levels(),
                    old(self).bl_levels(),
                    self.bl_levels(),
                    old(delay_source).delays(),
                    delay_source.delays(),
                    5,
                    pin_waits + 2,
                );
            }
            return Err(e);
        }
        if let Err(e) = self.write_data(&[0b0000_0000]) {
            proof {
                assert(self.bus_history() =~~= old(self).bus_history() + init_writes().take(6));
                assert(delay_source.delays() =~= old(delay_source).delays() + init_delays(
                    old(self).has_rst(),
                    old(self).has_bl(),
                ).take(pin_waits + 2));
                lemma_init_stopped(
                    old(self).has_rst(),
                    old(self).has_bl(),
                    old(self).bus_history(),
                    self.bus_history(),
                    old(self).rst_levels(),
                    self.rst_levels(),
                    old(self).bl_levels(),
                    self.bl_levels(),
                    old(delay_source).delays(),
                    delay_source.delays(),
                    6,
                    pin_waits + 2,
                );
            }
            return Err(e);
        }
        if let Err(e) = self.write_command(Command::PIXFMT) {  // 16bit 65k colors
            proof {
                assert(self.bus_history() =~~= old(self).bus_history() + init_writes().take(7));
                assert(delay_source.delays() =~= old(delay_source).delays() + init_delays(
                    old(self).has_rst(),
                    old(self).has_bl(),
                ).take(pin_waits + 2));
                lemma_init_stopped(
                    old(self).has_rst(),
                    old(self).has_bl(),
                    old(self).bus_history(),
                    self.bus_history(),
                    old(self).rst_levels(),
                    self.rst_levels(),
                    old(self).bl_levels(),
                    self.bl_levels(),
                    old(delay_source).delays(),
                    delay_source.delays(),
                    7,
                    pin_waits + 2,
                );
            }
            return Err(e);
        }
        if let Err(e) = self.write_data(&[0b0101_0101]) {
            proof {
                assert(self.bus_history() =~~= old(self).bus_history() + init_writes().take(8));
                assert(delay_source.delays() =~= old(delay_source).delays() + init_delays(
                    old(self).has_rst(),
                    old(self).has_bl(),
                ).take(pin_waits + 2));
                lemma_init_stopped(
                    old(self).has_rst(),
                    old(self).has_bl(),
                    old(self).bus_history(),
                    self.bus_history(),
                    old(self).rst_levels(),
                    self.rst_levels(),
                    old(self).bl_levels(),
                    self.bl_levels(),
                    old(delay_source).delays(),
                    delay_source.delays(),
                    8,
                    pin_waits + 2,
                );
            }
            return Err(e);
        }
        if let Err(e) = self.write_command(Command::INVON) {  // turn on invert
            proof {
                assert(self.bus_history() =~~= old(self).bus_history() + init_writes().take(9));
                assert(delay_source.delays() =~= old(delay_source).delays() + init_delays(
                    old(self).has_rst(),
                    old(self).has_bl(),
                ).take(pin_waits + 2));
                lemma_init_stopped(
                    old(self).has_rst(),
                    old(self).has_bl(),
                    old(self).bus_history(),
                    self.bus_history(),
                    old(self).rst_levels(),
                    self.rst_levels(),
                    old(self).bl_levels(),
                    self.bl_levels(),
                    old(delay_source).delays(),
                    delay_source.delays(),
                    9,
                    pin_waits + 2,
                );
            }
            return Err(e);
        }
        delay_source.delay_us(10_000);
        if let Err(e) = self.write_command(Command::NORON) {  // turn on display
            proof {
                assert(self.bus_history() =~~= old(self).bus_history() + init_writes().take(10));
                assert(delay_source.delays() =~= old(delay_source).delays() + init_delays(
                    old(self).has_rst(),
                    old(self).has_bl(),
                ).take(pin_waits + 3));
                lemma_init_stopped(
                    old(self).has_rst(),
                    old(self).has_bl(),
                    old(self).bus_history(),
                    self.bus_history(),
                    old(self).rst_levels(),
                    self.rst_levels(),
                    old(self).bl_levels(),
                    self.bl_levels(),
                    old(delay_source).delays(),
                    delay_source.delays(),
                    10,
                    pin_waits + 3,
                );
            }
            return Err(e);
        }
        delay_source.delay_us(10_000);
        if let Err(e) = self.write_command(Command::DISPON) {  // turn on display
            proof {
                assert(self.bus_history() =~~= old(self).bus_history() + init_writes().take(11));
                assert(delay_source.delays() =~= old(delay_source).delays() + init_delays(
                    old(self).has_rst(),
                    old(self).has_bl(),
                ).take(pin_waits + 4));
                lemma_init_stopped(
                    old(self).has_rst(),
                    old(self).has_bl(),
                    old(self).bus_history(),
                    self.bus_history(),
                    old(self).rst_levels(),
                    self.rst_levels(),
                    old(self).bl_levels(),
                    self.bl_levels(),
                    old(delay_source).delays(),
                    delay_source.delays(),
                    11,
                    pin_waits + 4,
                );
            }
            return Err(e);
        }
        delay_source.delay_us(10_000);
        proof {
            assert(self.bus_history() =~~= old(self).bus_history() + init_writes());
            assert(delay_source.delays() =~~= old(delay_source).delays() + init_delays(
                old(self).has_rst(),
                old(self).has_bl(),
            ));
        }
        Ok(())
    }

    /// Performs a hard reset using the reset pin, when one is present:
    /// drives it high, low, then high again, with a settle wait after each
    /// change. Without a reset pin this is a no-op success.
    pub fn hard_reset<D: Delay>(&mut self, delay_source: &mut D) -> (r: Result<(), Error<PinE>>)
        ensures
            final(self).bus_history() == old(self).bus_history(),
            final(self).has_rst() == old(self).has_rst(),
            final(self).has_bl() == old(self).has_bl(),
            final(self).bl_levels() == old(self).bl_levels(),
            final(self).spec_size() == old(self).spec_size(),
            final(self).spec_orientation() == old(self).spec_orientation(),
            !old(self).has_rst() ==> r is Ok && final(self).rst_levels() == old(self).rst_levels()
                && final(delay_source).delays() == old(delay_source).delays(),
            r is Ok && old(self).has_rst() ==> final(self).rst_levels() == old(self).rst_levels()
                + reset_pulse_levels() && final(delay_source).delays() == old(
                delay_source,
            ).delays() + reset_pulse_delays(),
            r is Err ==> r->Err_0 is Pin && old(self).has_rst() && reset_stopped(
                old(self).rst_levels(),
                final(self).rst_levels(),
                old(delay_source).delays(),
                final(delay_source).delays(),
            ),
    {
        match self.rst.take() {
            Some(mut pin) => {
                match pin.set_high() {
                    Ok(()) => {},
                    Err(e) => {
                        self.rst = Some(pin);
                        proof {
                        assert(self.rst_levels() =~= old(self).rst_levels()
                            + reset_pulse_levels().take(0));
                        assert(delay_source.delays() =~= old(delay_source).delays()
                            + reset_pulse_delays().take(0));
                    }
                        return Err(Error::Pin(e));
                    },
                }
                delay_source.delay_us(10);  // ensure the pin change will get registered
                match pin.set_low() {
                    Ok(()) => {},
                    Err(e) => {
                        self.rst = Some(pin);
                        proof {
                        assert(self.rst_levels() =~= old(self).rst_levels()
                            + reset_pulse_levels().take(1));
                        assert(delay_source.delays() =~= old(delay_source).delays()
                            + reset_pulse_delays().take(1));
                    }
                        return Err(Error::Pin(e));
                    },
                }
                delay_source.delay_us(10);  // ensure the pin change will get registered
                match pin.set_high() {
                    Ok(()) => {},
                    Err(e) => {
                        self.rst = Some(pin);
                        proof {
                        assert(self.rst_levels() =~= old(self).rst_levels()
                            + reset_pulse_levels().take(2));
                        assert(delay_source.delays() =~= old(delay_source).delays()
                            + reset_pulse_delays().take(2));
                    }
                        return Err(Error::Pin(e));
                    },
                }
                delay_source.delay_us(10);  // ensure the pin change will get registered
                self.rst = Some(pin);
                proof {
                    assert(self.rst_levels() =~= old(self).rst_levels() + reset_pulse_levels());
                    assert(delay_source.delays() =~= old(delay_source).delays()
                        + reset_pulse_delays());
                }
                Ok(())
            },
            None => Ok(()),
        }
    }

    /// Sets the backlight state, when a backlight pin is present: drives
    /// the pin high for on or low for off, then waits for the change to
    /// register. Without a backlight pin this is a no-op success.
    pub fn set_backlight<D: Delay>(
        &mut self,
        state: BacklightState,
        delay_source: &mut D,
    ) -> (r: Result<(), Error<PinE>>)
        ensures
            final(self).bus_history() == old(self).bus_history(),
            final(self).has_rst() == old(self).has_rst(),
            final(self).rst_levels() == old(self).rst_levels(),
            final(self).has_bl() == old(self).has_bl(),
            final(self).spec_size() == old(self).spec_size(),
            final(self).spec_orientation() == old(self).spec_orientation(),
            !old(self).has_bl() ==> r is Ok && final(self).bl_levels() == old(self).bl_levels()
                && final(delay_source).delays() == old(delay_source).delays(),
            r is Ok && old(self).has_bl() ==> final(self).bl_levels() == old(
                self,
            ).bl_levels().push(backlight_level(state)) && final(delay_source).delays() == old(
                delay_source,
            ).delays().push(10u32),
            r is Err ==> r->Err_0 is Pin && final(self).bl_levels() == old(self).bl_levels()
                && final(delay_source).delays() == old(delay_source).delays(),
    {
        match self.bl.take() {
            Some(mut pin) => {
                let res = match state {
                    BacklightState::ON => pin.set_high(),
                    BacklightState::OFF => pin.set_low(),
                };
                match res {
                    Ok(()) => {},
                    Err(e) => {
                        self.bl = Some(pin);
                        return Err(Error::Pin(e));
                    },
                }
                delay_source.delay_us(10);
                self.bl = Some(pin);
                Ok(())
            },
            None => Ok(()),
        }
    }

    /// Returns the current state of the display orientation.
    pub fn orientation(&self) -> (r: Orientation)
        ensures
            r == self.spec_orientation(),
    {
        self.orientation
    }

    /// Sets a new display orientation: sends the memory-access-control
    /// opcode with the orientation's register byte, and only on success
    /// updates the stored orientation. On failure the stored value is left
    /// unchanged.
    pub fn set_orientation(&mut self, orientation: Orientation) -> (r: Result<(), Error<PinE>>)
        ensures
            Self::unchanged_pins(*old(self), *final(self)),
            final(self).spec_size() == old(self).spec_size(),
            r is Ok ==> final(self).spec_orientation() == orientation,
            r is Ok ==> final(self).bus_history() == old(self).bus_history() + madctl_writes(
                orientation,
            ),
            r is Err ==> final(self).spec_orientation() == old(self).spec_orientation(),
            r is Err ==> r->Err_0 is DisplayError && appended_prefix(
                old(self).bus_history(),
                final(self).bus_history(),
                madctl_writes(orientation),
            ),
    {
        let ghost intended = madctl_writes(orientation);
        if let Err(e) = self.write_command(Command::MADCTL) {
            proof {
                assert(self.bus_history() =~~= old(self).bus_history() + intended.take(0));
                lemma_appended_prefix(old(self).bus_history(), self.bus_history(), intended, 0);
            }
            return Err(e);
        }
        if let Err(e) = self.write_data(&[orientation.madctl()]) {
            proof {
                assert(self.bus_history() =~~= old(self).bus_history() + intended.take(1));
                lemma_appended_prefix(old(self).bus_history(), self.bus_history(), intended, 1);
            }
            return Err(e);
        }
        self.orientation = orientation;
        proof {
            assert(self.bus_history() =~~= old(self).bus_history() + madctl_writes(orientation));
        }
        Ok(())
    }

    /// Sets a pixel color at the given coordinates: a one-point address
    /// window, the memory-write opcode, then the color word, big-endian.
    pub fn set_pixel(&mut self, x: u16, y: u16, color: u16) -> (r: Result<(), Error<PinE>>)
        ensures
            Self::unchanged_frame(*old(self), *final(self)),
            r is Ok ==> final(self).bus_history() == old(self).bus_history()
                + single_pixel_writes(x, y, color),
            r is Err ==> r->Err_0 is DisplayError && appended_prefix(
                old(self).bus_history(),
                final(self).bus_history(),
                burst_setup_writes(x, y, x, y),
            ),
    {
        let ghost intended = burst_setup_writes(x, y, x, y);
        if let Err(e) = self.set_address_window(x, y, x, y) {
            proof {
                let ww = window_writes(x, y, x, y);
                let k = choose|k: int|
                    0 <= k <= ww.len() && self.bus_history() == old(self).bus_history()
                        + ww.take(k);
                assert(self.bus_history() =~~= old(self).bus_history() + intended.take(k));
                lemma_appended_prefix(old(self).bus_history(), self.bus_history(), intended, k);
            }
            return Err(e);
        }
        if let Err(e) = self.write_command(Command::RAMWR) {
            proof {
                assert(self.bus_history() =~~= old(self).bus_history() + intended.take(6));
                lemma_appended_prefix(old(self).bus_history(), self.bus_history(), intended, 6);
            }
            return Err(e);
        }
        if let Err(e) = self.write_data_word(color) {
            proof {
                assert(self.bus_history() =~~= old(self).bus_history() + intended.take(7));
                lemma_appended_prefix(old(self).bus_history(), self.bus_history(), intended, 7);
            }
            return Err(e);
        }
        proof {
            assert(self.bus_history() =~~= old(self).bus_history() + single_pixel_writes(
                x,
                y,
                color,
            ));
        }
        Ok(())
    }

    /// Sets pixel colors in the given rectangle bounds, inclusive on both
    /// ends: the address window, the memory-write opcode, then every color
    /// word, big-endian, in row-major order. This layer forwards exactly
    /// the words it is given; the count discipline (one word per window
    /// pixel) is the caller's.
    pub fn set_pixels(&mut self, sx: u16, sy: u16, ex: u16, ey: u16, colors: &[u16]) -> (r: Result<
        (),
        Error<PinE>,
    >)
        ensures
            Self::unchanged_frame(*old(self), *final(self)),
            r is Ok ==> final(self).bus_history() == old(self).bus_history() + burst_writes(
                sx,
                sy,
                ex,
                ey,
                colors@,
            ),
            r is Err ==> r->Err_0 is DisplayError && appended_prefix(
                old(self).bus_history(),
                final(self).bus_history(),
                burst_setup_writes(sx, sy, ex, ey),
            ),
    {
        let ghost intended = burst_setup_writes(sx, sy, ex, ey);
        if let Err(e) = self.set_address_window(sx, sy, ex, ey) {
            proof {
                let ww = window_writes(sx, sy, ex, ey);
                let k = choose|k: int|
                    0 <= k <= ww.len() && self.bus_history() == old(self).bus_history()
                        + ww.take(k);
                assert(self.bus_history() =~~= old(self).bus_history() + intended.take(k));
                lemma_appended_prefix(old(self).bus_history(), self.bus_history(), intended, k);
            }
            return Err(e);
        }
        if let Err(e) = self.write_command(Command::RAMWR) {
            proof {
                assert(self.bus_history() =~~= old(self).bus_history() + intended.take(6));
                lemma_appended_prefix(old(self).bus_history(), self.bus_history(), intended, 6);
            }
            return Err(e);
        }
        let data = encode_words(colors);
        match self.di.send_data(data.as_slice()) {
            Ok(()) => {
                proof {
                    assert(self.bus_history() =~~= old(self).bus_history() + burst_writes(
                        sx,
                        sy,
                        ex,
                        ey,
                        colors@,
                    ));
                }
                Ok(())
            },
            Err(_) => {
                proof {
                    assert(self.bus_history() =~~= old(self).bus_history() + intended.take(7));
                    lemma_appended_prefix(
                        old(self).bus_history(),
                        self.bus_history(),
                        intended,
                        7,
                    );
                }
                Err(Error::DisplayError)
            },
        }
    }

    /// Sets the scroll offset, "shifting" the displayed picture.
    pub fn set_scroll_offset(&mut self, offset: u16) -> (r: Result<(), Error<PinE>>)
        ensures
            Self::unchanged_frame(*old(self), *final(self)),
            r is Ok ==> final(self).bus_history() == old(self).bus_history()
                + scroll_offset_writes(offset),
            r is Err ==> r->Err_0 is DisplayError && appended_prefix(
                old(self).bus_history(),
                final(self).bus_history(),
                scroll_offset_writes(offset),
            ),
    {
        let ghost intended = scroll_offset_writes(offset);
        if let Err(e) = self.write_command(Command::VSCRSADD) {
            proof {
                assert(self.bus_history() =~~= old(self).bus_history() + intended.take(0));
                lemma_appended_prefix(old(self).bus_history(), self.bus_history(), intended, 0);
            }
            return Err(e);
        }
        if let Err(e) = self.write_data_word(offset) {
            proof {
                assert(self.bus_history() =~~= old(self).bus_history() + intended.take(1));
                lemma_appended_prefix(old(self).bus_history(), self.bus_history(), intended, 1);
            }
            return Err(e);
        }
        proof {
            assert(self.bus_history() =~~= old(self).bus_history() + scroll_offset_writes(offset));
        }
        Ok(())
    }

    /// Configures the tearing effect output.
    pub fn set_tearing_effect(&mut self, tearing_effect: TearingEffect) -> (r: Result<
        (),
        Error<PinE>,
    >)
        ensures
            Self::unchanged_frame(*old(self), *final(self)),
            r is Ok ==> final(self).bus_history() == old(self).bus_history() + tearing_writes(
                tearing_effect,
            ),
            r is Err ==> r->Err_0 is DisplayError && appended_prefix(
                old(self).bus_history(),
                final(self).bus_history(),
                tearing_writes(tearing_effect),
            ),
    {
        let ghost intended = tearing_writes(tearing_effect);
        match tearing_effect {
            TearingEffect::Off => {
                if let Err(e) = self.write_command(Command::TEOFF) {
                    proof {
                        assert(self.bus_history() =~~= old(self).bus_history() + intended.take(0));
                        lemma_appended_prefix(old(self).bus_history(), self.bus_history(), intended, 0);
                    }
                    return Err(e);
                }
                proof {
                    assert(self.bus_history() =~~= old(self).bus_history() + tearing_writes(
                        tearing_effect,
                    ));
                }
                Ok(())
            },
            TearingEffect::Vertical => {
                if let Err(e) = self.write_command(Command::TEON) {
                    proof {
                        assert(self.bus_history() =~~= old(self).bus_history() + intended.take(0));
                        lemma_appended_prefix(old(self).bus_history(), self.bus_history(), intended, 0);
                    }
                    return Err(e);
                }
                if let Err(e) = self.write_data(&[0]) {
                    proof {
                        assert(self.bus_history() =~~= old(self).bus_history() + intended.take(1));
                        lemma_appended_prefix(old(self).bus_history(), self.bus_history(), intended, 1);
                    }
                    return Err(e);
                }
                proof {
                    assert(self.bus_history() =~~= old(self).bus_history() + tearing_writes(
                        tearing_effect,
                    ));
                }
                Ok(())
            },
            TearingEffect::HorizontalVertical => {
                if let Err(e) = self.write_command(Command::TEON) {
                    proof {
                        assert(self.bus_history() =~~= old(self).bus_history() + intended.take(0));
                        lemma_appended_prefix(old(self).bus_history(), self.bus_history(), intended, 0);
                    }
                    return Err(e);
                }
                if let Err(e) = self.write_data(&[1]) {
                    proof {
                        assert(self.bus_history() =~~= old(self).bus_history() + intended.take(1));
                        lemma_appended_prefix(old(self).bus_history(), self.bus_history(), intended, 1);
                    }
                    return Err(e);
                }
                proof {
                    assert(self.bus_history() =~~= old(self).bus_history() + tearing_writes(
                        tearing_effect,
                    ));
                }
                Ok(())
            },
        }
    }

    /// Releases the resources allocated to this driver back to the caller:
    /// the display interface and the two optional pins, deconstructing the
    /// driver.
    pub fn release(self) -> (r: (DI, Option<RST>, Option<BL>))
        ensures
            r.0.history() == self.bus_history(),
            (r.1 is Some) == self.has_rst(),
            r.1 matches Some(pin) ==> pin.levels() == self.rst_levels(),
            (r.2 is Some) == self.has_bl(),
            r.2 matches Some(pin) ==> pin.levels() == self.bl_levels(),
    {
        (self.di, self.rst, self.bl)
    }

    /// Writes one instruction's opcode byte as a command transfer.
    fn write_command(&mut self, command: Command) -> (r: Result<(), Error<PinE>>)
        ensures
            Self::unchanged_frame(*old(self), *final(self)),
            r is Ok ==> final(self).bus_history() == old(self).bus_history().push(
                BusWrite::Command(command.spec_opcode()),
            ),
            r is Err ==> r->Err_0 is DisplayError && final(self).bus_history() == old(
                self,
            ).bus_history(),
    {
        match self.di.send_command(command.opcode()) {
            Ok(()) => Ok(()),
            Err(_) => Err(Error::DisplayError),
        }
    }

    /// Writes the given bytes as one data transfer, in the order given.
    fn write_data(&mut self, data: &[u8]) -> (r: Result<(), Error<PinE>>)
        ensures
            Self::unchanged_frame(*old(self), *final(self)),
            r is Ok ==> final(self).bus_history() == old(self).bus_history().push(BusWrite::Data(
                data@,
            )),
            r is Err ==> r->Err_0 is DisplayError && final(self).bus_history() == old(
                self,
            ).bus_history(),
    {
        match self.di.send_data(data) {
            Ok(()) => Ok(()),
            Err(_) => Err(Error::DisplayError),
        }
    }

    /// Writes one 16-bit word as one data transfer of its two bytes,
    /// most-significant byte first.
    fn write_data_word(&mut self, word: u16) -> (r: Result<(), Error<PinE>>)
        ensures
            Self::unchanged_frame(*old(self), *final(self)),
            r is Ok ==> final(self).bus_history() == old(self).bus_history().push(BusWrite::Data(
                be16(word),
            )),
            r is Err ==> r->Err_0 is DisplayError && final(self).bus_history() == old(
                self,
            ).bus_history(),
    {
        let hi: u8 = (word / 256) as u8;
        let lo: u8 = (word % 256) as u8;
        self.write_data(&[hi, lo])
    }

    /// Sets the address window for the display, inclusive on both ends. No
    /// bounds validation happens at this layer.
    fn set_address_window(&mut self, sx: u16, sy: u16, ex: u16, ey: u16) -> (r: Result<
        (),
        Error<PinE>,
    >)
        ensures
            Self::unchanged_frame(*old(self), *final(self)),
            r is Ok ==> final(self).bus_history() == old(self).bus_history() + window_writes(
                sx,
                sy,
                ex,
                ey,
            ),
            r is Err ==> r->Err_0 is DisplayError && appended_prefix(
                old(self).bus_history(),
                final(self).bus_history(),
                window_writes(sx, sy, ex, ey),
            ),
    {
        let ghost intended = window_writes(sx, sy, ex, ey);
        if let Err(e) = self.write_command(Command::CASET) {
            proof {
                assert(self.bus_history() =~~= old(self).bus_history() + intended.take(0));
                lemma_appended_prefix(old(self).bus_history(), self.bus_history(), intended, 0);
            }
            return Err(e);
        }
        if let Err(e) = self.write_data_word(sx) {
            proof {
                assert(self.bus_history() =~~= old(self).bus_history() + intended.take(1));
                lemma_appended_prefix(old(self).bus_history(), self.bus_history(), intended, 1);
            }
            return Err(e);
        }
        if let Err(e) = self.write_data_word(ex) {
            proof {
                assert(self.bus_history() =~~= old(self).bus_history() + intended.take(2));
                lemma_appended_prefix(old(self).bus_history(), self.bus_history(), intended, 2);
            }
            return Err(e);
        }
        if let Err(e) = self.write_command(Command::PASET) {
            proof {
                assert(self.bus_history() =~~= old(self).bus_history() + intended.take(3));
                lemma_appended_prefix(old(self).bus_history(), self.bus_history(), intended, 3);
            }
            return Err(e);
        }
        if let Err(e) = self.write_data_word(sy) {
            proof {
                assert(self.bus_history() =~~= old(self).bus_history() + intended.take(4));
                lemma_appended_prefix(old(self).bus_history(), self.bus_history(), intended, 4);
            }
            return Err(e);
        }
        if let Err(e) = self.write_data_word(ey) {
            proof {
                assert(self.bus_history() =~~= old(self).bus_history() + intended.take(5));
                lemma_appended_prefix(old(self).bus_history(), self.bus_history(), intended, 5);
            }
            return Err(e);
        }
        proof {
            assert(self.bus_history() =~~= old(self).bus_history() + window_writes(sx, sy, ex, ey));
        }
        Ok(())
    }
}

/// Flattens 16-bit color words into their byte stream: each word as two
/// bytes, most-significant byte first, in word order.
fn encode_words(words: &[u16]) -> (r: Vec<u8>)
    ensures
        r@ == words_be(words@),
{
    let mut data: Vec<u8> = Vec::new();
    let mut i: usize = 0;
    while i < words.len()
        invariant
            0 <= i <= words@.len(),
            data@ == words_be(words@.take(i as int)),
        decreases words@.len() - i,
    {
        let w = words[i];
        data.push((w / 256) as u8);
        data.push((w % 256) as u8);
        proof {
            let t = words@.take(i + 1 as int);
            assert(t.drop_last() =~= words@.take(i as int));
            assert(data@ =~~= words_be(words@.take(i as int)) + be16(words@[i as int]));
            assert(data@ =~~= words_be(words@.take(i + 1 as int)));
        }
        i = i + 1;
    }
    proof {
        assert(words@.take(words@.len() as int) =~= words@);
    }
    data
}

} // verus!
