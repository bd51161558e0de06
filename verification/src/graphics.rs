//! The rendering-target adapter: maps pixel iteration, rectangular fill,
//! solid fill and full clear onto the addressing protocol, clipping to
//! the physical RAM rectangle of the current orientation and capping the
//! color supply to the window's pixel count.

use vstd::prelude::*;

use crate::geometry::Rect;
use crate::interface::{appended_prefix, Bus, BusWrite, OutPin};
use crate::{burst_setup_writes, burst_writes, single_pixel_writes, Error, Orientation, ST7796};

verus! {

/// One pixel-draw request: a point and the color to write there.
#[derive(Clone, Copy, Debug, PartialEq, Eq, Structural)]
pub struct Pixel {
    /// X coordinate.
    pub x: i32,
    /// Y coordinate.
    pub y: i32,
    /// The color, as a packed 16-bit value.
    pub color: u16,
}

/// The controller's physical RAM rectangle under the given orientation:
/// 320 by 480 pixels in the portrait variants, 480 by 320 in the
/// landscape variants, always anchored at the origin.
pub open spec fn fb_rect(orientation: Orientation) -> Rect {
    Rect {
        x: 0,
        y: 0,
        width: orientation.spec_fb_width() as u32,
        height: orientation.spec_fb_height() as u32,
    }
}

/// The column of a rectangle's left edge, as sent in an address window.
pub open spec fn rect_sx(region: Rect) -> u16 {
    region.x as u16
}

/// The row of a rectangle's top edge, as sent in an address window.
pub open spec fn rect_sy(region: Rect) -> u16 {
    region.y as u16
}

/// The column of a rectangle's right edge (inclusive), as sent in an
/// address window.
pub open spec fn rect_ex(region: Rect) -> u16 {
    (region.x as int + region.width as int - 1) as u16
}

/// The row of a rectangle's bottom edge (inclusive), as sent in an
/// address window.
pub open spec fn rect_ey(region: Rect) -> u16 {
    (region.y as int + region.height as int - 1) as u16
}

/// How many pixels a rectangle covers.
pub open spec fn rect_pixel_count(region: Rect) -> nat {
    (region.width * region.height) as nat
}

/// The transfers of one windowed burst over a whole rectangle.
pub open spec fn region_writes(region: Rect, colors: Seq<u16>) -> Seq<BusWrite> {
    burst_writes(rect_sx(region), rect_sy(region), rect_ex(region), rect_ey(region), colors)
}

/// The transfers a windowed burst over a rectangle has made when it
/// fails: at most the rectangle's address window and the memory-write
/// opcode, never a color word.
pub open spec fn region_setup_writes(region: Rect) -> Seq<BusWrite> {
    burst_setup_writes(rect_sx(region), rect_sy(region), rect_ex(region), rect_ey(region))
}

/// A color supply capped to at most `n` words: extra words are dropped,
/// a shorter supply is passed through unchanged.
pub open spec fn capped(colors: Seq<u16>, n: nat) -> Seq<u16> {
    if colors.len() <= n {
        colors
    } else {
        colors.take(n as int)
    }
}

/// The same color repeated `n` times.
pub open spec fn repeated(color: u16, n: nat) -> Seq<u16> {
    Seq::new(n, |i: int| color)
}

/// The transfers one pixel-draw request produces: a single-pixel write
/// when the point lies in the physical RAM rectangle, nothing otherwise.
pub open spec fn pixel_writes_at(orientation: Orientation, p: Pixel) -> Seq<BusWrite> {
    if fb_rect(orientation).spec_contains(p.x as int, p.y as int) {
        single_pixel_writes(p.x as u16, p.y as u16, p.color)
    } else {
        Seq::empty()
    }
}

/// The transfers one pixel-draw request has made when it fails: at most
/// its one-point address window and the memory-write opcode, never the
/// color word; nothing at all for an out-of-bounds point.
pub open spec fn pixel_setup_at(orientation: Orientation, p: Pixel) -> Seq<BusWrite> {
    if fb_rect(orientation).spec_contains(p.x as int, p.y as int) {
        burst_setup_writes(p.x as u16, p.y as u16, p.x as u16, p.y as u16)
    } else {
        Seq::empty()
    }
}

/// The transfers a sequence of pixel-draw requests produces, in order.
pub open spec fn draw_writes(orientation: Orientation, pixels: Seq<Pixel>) -> Seq<BusWrite>
    decreases pixels.len(),
{
    if pixels.len() == 0 {
        Seq::empty()
    } else {
        draw_writes(orientation, pixels.drop_last()) + pixel_writes_at(orientation, pixels.last())
    }
}

/// On failure, drawing stopped inside the first rejected request: the
/// traffic is that of the completed requests, followed by a prefix of
/// one further in-bounds request's transfers, and nothing more.
pub open spec fn draw_stopped(
    orientation: Orientation,
    pixels: Seq<Pixel>,
    pre: Seq<BusWrite>,
    post: Seq<BusWrite>,
) -> bool {
    exists|i: int|
        0 <= i < pixels.len() && #[trigger] appended_prefix(
            pre + draw_writes(orientation, pixels.take(i)),
            post,
            pixel_setup_at(orientation, pixels[i]),
        )
}

/// Whatever the orientation, the physical RAM rectangle holds exactly
/// 153 600 pixels, so a full clear always streams that many color words.
pub proof fn lemma_fb_pixel_count(orientation: Orientation)
    ensures
        rect_pixel_count(fb_rect(orientation)) == 153_600,
{
    let region = fb_rect(orientation);
    match orientation {
        Orientation::Portrait => {
            assert(region.width == 320 && region.height == 480);
            assert(region.width * region.height == 153_600);
        },
        Orientation::PortraitSwapped => {
            assert(region.width == 320 && region.height == 480);
            assert(region.width * region.height == 153_600);
        },
        Orientation::Landscape => {
            assert(region.width == 480 && region.height == 320);
            assert(region.width * region.height == 153_600);
        },
        Orientation::LandscapeSwapped => {
            assert(region.width == 480 && region.height == 320);
            assert(region.width * region.height == 153_600);
        },
    }
}

impl<DI, RST, BL, PinE> ST7796<DI, RST, BL> where
    DI: Bus,
    RST: OutPin<Fault = PinE>,
    BL: OutPin<Fault = PinE>,
 {
    /// Returns the bounding box of the controller's physical RAM
    /// rectangle for the current orientation (not the visible size).
    pub fn framebuffer_bounding_box(&self) -> (r: Rect)
        ensures
            r == fb_rect(self.spec_orientation()),
    {
        match self.orientation() {
            Orientation::Portrait | Orientation::PortraitSwapped => Rect {
                x: 0,
                y: 0,
                width: 320,
                height: 480,
            },
            Orientation::Landscape | Orientation::LandscapeSwapped => Rect {
                x: 0,
                y: 0,
                width: 480,
                height: 320,
            },
        }
    }

    /// Draws each requested pixel whose point lies within the physical
    /// RAM rectangle of the current orientation, in order, as one
    /// single-pixel write each; points outside it are skipped.
    pub fn draw_iter(&mut self, pixels: &[Pixel]) -> (r: Result<(), Error<PinE>>)
        ensures
            Self::unchanged_frame(*old(self), *final(self)),
            r is Ok ==> final(self).bus_history() == old(self).bus_history() + draw_writes(
                old(self).spec_orientation(),
                pixels@,
            ),
            (forall|i: int|
                0 <= i < pixels@.len() ==> !fb_rect(old(self).spec_orientation()).spec_contains(
                    pixels@[i].x as int,
                    pixels@[i].y as int,
                )) ==> r is Ok,
            r is Err ==> r->Err_0 is DisplayError && draw_stopped(
                old(self).spec_orientation(),
                pixels@,
                old(self).bus_history(),
                final(self).bus_history(),
            ),
    {
        let fb = self.framebuffer_bounding_box();
        let mut i: usize = 0;
        while i < pixels.len()
            invariant
                0 <= i <= pixels@.len(),
                Self::unchanged_frame(*old(self), *self),
                fb == fb_rect(old(self).spec_orientation()),
                self.bus_history() == old(self).bus_history() + draw_writes(
                    old(self).spec_orientation(),
                    pixels@.take(i as int),
                ),
            decreases pixels@.len() - i,
        {
            let p = pixels[i];
            if fb.contains(p.x, p.y) {
                match self.set_pixel(p.x as u16, p.y as u16, p.color) {
                    Ok(()) => {},
                    Err(e) => {
                        proof {
                            let o0 = old(self).spec_orientation();
                            assert(fb_rect(o0).spec_contains(
                                pixels@[i as int].x as int,
                                pixels@[i as int].y as int,
                            ));
                            assert(pixel_setup_at(o0, pixels@[i as int]) == burst_setup_writes(
                                p.x as u16,
                                p.y as u16,
                                p.x as u16,
                                p.y as u16,
                            ));
                            assert(appended_prefix(
                                old(self).bus_history() + draw_writes(o0, pixels@.take(i as int)),
                                self.bus_history(),
                                pixel_setup_at(o0, pixels@[i as int]),
                            ));
                        }
                        return Err(e);
                    },
                }
            }
            proof {
                assert(pixels@.take(i + 1 as int).drop_last() =~= pixels@.take(i as int));
                assert(self.bus_history() =~~= old(self).bus_history() + draw_writes(
                    old(self).spec_orientation(),
                    pixels@.take(i + 1 as int),
                ));
            }
            i = i + 1;
        }
        proof {
            assert(pixels@.take(pixels@.len() as int) =~= pixels@);
        }
        Ok(())
    }

    /// Fills the part of `area` that lies within the physical RAM
    /// rectangle with words from `colors`: the rectangle is clipped, the
    /// supply is capped to the clipped window's pixel count, and the
    /// burst is forwarded. An `area` entirely outside the rectangle is a
    /// no-op success. A supply shorter than the window leaves the
    /// controller's write incomplete: supplying enough words is the
    /// caller's contract.
    pub fn fill_contiguous(&mut self, area: &Rect, colors: &[u16]) -> (r: Result<(), Error<PinE>>)
        ensures
            Self::unchanged_frame(*old(self), *final(self)),
            ({
                let region = Rect::spec_intersection(
                    *area,
                    fb_rect(old(self).spec_orientation()),
                );
                &&& region.spec_is_empty() ==> r is Ok && final(self).bus_history() == old(
                    self,
                ).bus_history()
                &&& (r is Ok && !region.spec_is_empty()) ==> final(self).bus_history() == old(
                    self,
                ).bus_history() + region_writes(
                    region,
                    capped(colors@, rect_pixel_count(region)),
                )
            }),
            r is Err ==> r->Err_0 is DisplayError && ({
                let region = Rect::spec_intersection(
                    *area,
                    fb_rect(old(self).spec_orientation()),
                );
                appended_prefix(
                    old(self).bus_history(),
                    final(self).bus_history(),
                    region_setup_writes(region),
                )
            }),
    {
        let fb = self.framebuffer_bounding_box();
        let region = area.intersection(&fb);
        if region.is_empty() {
            return Ok(());
        }
        proof {
            assert(region.width as int * region.height as int <= 230_400) by (nonlinear_arith)
                requires
                    region.width <= 480,
                    region.height <= 480,
            ;
        }
        let count: u32 = region.width * region.height;
        let supply: usize = if colors.len() <= count as usize {
            colors.len()
        } else {
            count as usize
        };
        let chunk: &[u16] = &colors[0..supply];
        let sx: u16 = region.x as u16;
        let sy: u16 = region.y as u16;
        let ex: u16 = (region.x as u32 + region.width - 1) as u16;
        let ey: u16 = (region.y as u32 + region.height - 1) as u16;
        let res = self.set_pixels(sx, sy, ex, ey, chunk);
        proof {
            assert(chunk@ =~= capped(colors@, rect_pixel_count(region)));
            assert(burst_writes(sx, sy, ex, ey, chunk@) == region_writes(
                region,
                capped(colors@, rect_pixel_count(region)),
            ));
            assert(burst_setup_writes(sx, sy, ex, ey) == region_setup_writes(region));
        }
        res
    }

    /// Fills the part of `area` that lies within the physical RAM
    /// rectangle with a single color, one word per pixel of the clipped
    /// window. An `area` entirely outside the rectangle is a no-op
    /// success.
    pub fn fill_solid(&mut self, area: &Rect, color: u16) -> (r: Result<(), Error<PinE>>)
        ensures
            Self::unchanged_frame(*old(self), *final(self)),
            ({
                let region = Rect::spec_intersection(
                    *area,
                    fb_rect(old(self).spec_orientation()),
                );
                &&& region.spec_is_empty() ==> r is Ok && final(self).bus_history() == old(
                    self,
                ).bus_history()
                &&& (r is Ok && !region.spec_is_empty()) ==> final(self).bus_history() == old(
                    self,
                ).bus_history() + region_writes(
                    region,
                    repeated(color, rect_pixel_count(region)),
                )
            }),
            r is Err ==> r->Err_0 is DisplayError && ({
                let region = Rect::spec_intersection(
                    *area,
                    fb_rect(old(self).spec_orientation()),
                );
                appended_prefix(
                    old(self).bus_history(),
                    final(self).bus_history(),
                    region_setup_writes(region),
                )
            }),
    {
        let fb = self.framebuffer_bounding_box();
        let region = area.intersection(&fb);
        if region.is_empty() {
            return Ok(());
        }
        proof {
            assert(region.width as int * region.height as int <= 230_400) by (nonlinear_arith)
                requires
                    region.width <= 480,
                    region.height <= 480,
            ;
        }
        let count: u32 = region.width * region.height;
        let colors = repeat_color(color, count as usize);
        let sx: u16 = region.x as u16;
        let sy: u16 = region.y as u16;
        let ex: u16 = (region.x as u32 + region.width - 1) as u16;
        let ey: u16 = (region.y as u32 + region.height - 1) as u16;
        let res = self.set_pixels(sx, sy, ex, ey, colors.as_slice());
        proof {
            assert(burst_writes(sx, sy, ex, ey, colors@) == region_writes(
                region,
                repeated(color, rect_pixel_count(region)),
            ));
            assert(burst_setup_writes(sx, sy, ex, ey) == region_setup_writes(region));
        }
        res
    }

    /// Blanks the controller's entire physical RAM rectangle for the
    /// current orientation (never the smaller visible size): one address
    /// window over the whole rectangle and exactly 153 600 repetitions of
    /// the color word.
    pub fn clear(&mut self, color: u16) -> (r: Result<(), Error<PinE>>)
        ensures
            Self::unchanged_frame(*old(self), *final(self)),
            r is Ok ==> final(self).bus_history() == old(self).bus_history() + region_writes(
                fb_rect(old(self).spec_orientation()),
                repeated(color, 153_600),
            ),
            r is Err ==> r->Err_0 is DisplayError && appended_prefix(
                old(self).bus_history(),
                final(self).bus_history(),
                region_setup_writes(fb_rect(old(self).spec_orientation())),
            ),
    {
        let (w, h): (u16, u16) = match self.orientation() {
            Orientation::Portrait | Orientation::PortraitSwapped => (320, 480),
            Orientation::Landscape | Orientation::LandscapeSwapped => (480, 320),
        };
        let colors = repeat_color(color, 153_600);
        let res = self.set_pixels(0, 0, w - 1, h - 1, colors.as_slice());
        proof {
            assert(burst_writes(0, 0, (w - 1) as u16, (h - 1) as u16, colors@) == region_writes(
                fb_rect(old(self).spec_orientation()),
                repeated(color, 153_600),
            ));
            assert(burst_setup_writes(0, 0, (w - 1) as u16, (h - 1) as u16) == region_setup_writes(
                fb_rect(old(self).spec_orientation()),
            ));
        }
        res
    }

    /// Returns the caller-supplied visible size verbatim, x then y. It is
    /// independent of the orientation and of the physical RAM rectangle,
    /// and is never auto-corrected.
    pub fn size(&self) -> (r: (u16, u16))
        ensures
            r == self.spec_size(),
    {
        (self.size_x, self.size_y)
    }
}

/// Builds the color supply for a solid fill: the same word, `n` times.
fn repeat_color(color: u16, n: usize) -> (r: Vec<u16>)
    ensures
        r@ == repeated(color, n as nat),
{
    let mut v: Vec<u16> = Vec::new();
    let mut i: usize = 0;
    while i < n
        invariant
            0 <= i <= n,
            v@ == repeated(color, i as nat),
        decreases n - i,
    {
        v.push(color);
        proof {
            assert(v@ =~= repeated(color, (i + 1) as nat));
        }
        i = i + 1;
    }
    v
}

} // verus!
