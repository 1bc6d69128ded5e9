//! The terrain field: a read-only RGBA grid sampled with bilinear
//! interpolation over fixed-point world coordinates. One channel encodes
//! height, another the open-water classification.
use vstd::prelude::*;

use crate::fx::abs_s;
use crate::fx::div_trunc_s;
use crate::vec2::Vec2Fx;
use crate::vec2::V2;

verus! {

/// Half the world's span in milli-units: world coordinates run over
/// `[-SIZE, SIZE]` on each axis.
pub const SIZE: i64 = 100_000;

/// Height below which a point counts as water rather than shore.
pub const SHORE_HEIGHT: i64 = -200;

/// The deepest depth the height channel can encode.
pub const DEEPEST_DEPTH: i64 = -1500;

/// The highest land the height channel can encode.
pub const HIGHEST_LAND: i64 = 500;

/// Largest accepted grid side, which keeps all indexing inside `i64`.
pub const MAX_GRID_SIDE: u32 = 4096;

/// What `image` decodes a byte buffer to: dimensions and a flat RGBA
/// buffer, a function of the bytes alone.
pub uninterp spec fn decoded_rgba(bytes: Seq<u8>) -> Option<(u32, u32, Seq<u8>)>;

/// Relies on `image::load_from_memory` (with `DynamicImage::to_rgba8`):
/// decoding is a pure function of the bytes, and the RGBA buffer it hands
/// back holds exactly `4 * width * height` bytes.
#[verifier::external_body]
fn decode_rgba(bytes: &Vec<u8>) -> (r: Option<(u32, u32, Vec<u8>)>)
    ensures
        r is Some <==> decoded_rgba(bytes@) is Some,
        r matches Some(t) ==> decoded_rgba(bytes@) == Some((t.0, t.1, t.2@)) && t.2@.len() == 4 * (
        t.0 as int) * (t.1 as int),
{
    match image::load_from_memory(bytes.as_slice()) {
        Ok(img) => {
            let rgba = img.to_rgba8();
            let w = rgba.width();
            let h = rgba.height();
            Some((w, h, rgba.into_raw()))
        },
        Err(_) => None,
    }
}

/// The mathematical value of a terrain grid.
pub struct TerrainView {
    pub width: int,
    pub height: int,
    pub pixels: Seq<u8>,
}

/// The terrain field, loaded once and then only read.
pub struct Terrain {
    width: u32,
    height: u32,
    pixels: Vec<u8>,
}

impl View for Terrain {
    type V = TerrainView;

    closed spec fn view(&self) -> TerrainView {
        TerrainView {
            width: self.width as int,
            height: self.height as int,
            pixels: self.pixels@,
        }
    }
}

/// A usable grid: positive sides within the cap, and a full RGBA buffer.
pub open spec fn terrain_wf(t: TerrainView) -> bool {
    &&& 1 <= t.width <= MAX_GRID_SIDE as int
    &&& 1 <= t.height <= MAX_GRID_SIDE as int
    &&& t.pixels.len() == 4 * t.width * t.height
}

/// Clamping an integer into `[0, hi]`.
pub open spec fn clamp_idx_s(x: int, hi: int) -> int {
    if x < 0 {
        0
    } else if x > hi {
        hi
    } else {
        x
    }
}

/// One channel of the pixel nearest to grid coordinates `(x, y)`, with
/// the vertical axis flipped and both axes clamped to the grid.
pub open spec fn pixel_s(t: TerrainView, x: int, y: int, ch: int) -> int {
    let cx = clamp_idx_s(x, t.width - 1);
    let cy = clamp_idx_s(t.height - y - 1, t.height - 1);
    t.pixels[4 * (cy * t.width + cx) + ch] as int
}

/// Linear interpolation between two milli-unit samples at `f` milli-units.
pub open spec fn lerp_s(a: int, b: int, f: int) -> int {
    a + div_trunc_s((b - a) * f, 1000)
}

/// The scaled grid offset of a world coordinate: the coordinate mapped
/// into `[0, width * 200_000)` so that `200_000` steps cross one pixel.
pub open spec fn grid_offset_s(t: TerrainView, x: int) -> int {
    clamp_idx_s((x + SIZE as int) * t.width, 200_000 * t.width - 1)
}

/// A channel value in `[0, 1000]` at a world point: the four nearest
/// pixels, bilinearly interpolated, each pixel byte scaled into milli-units.
pub open spec fn channel_value_s(t: TerrainView, ch: int, p: V2) -> int {
    let nx = grid_offset_s(t, p.x);
    let ny = grid_offset_s(t, p.y);
    let ix = nx / 200_000;
    let iy = ny / 200_000;
    let fx = ((nx % 200_000) * 1000) / 200_000;
    let fy = ((ny % 200_000) * 1000) / 200_000;
    let v00 = (pixel_s(t, ix, iy, ch) * 1000) / 255;
    let v01 = (pixel_s(t, ix, iy + 1, ch) * 1000) / 255;
    let v10 = (pixel_s(t, ix + 1, iy, ch) * 1000) / 255;
    let v11 = (pixel_s(t, ix + 1, iy + 1, ch) * 1000) / 255;
    lerp_s(lerp_s(v00, v01, fy), lerp_s(v10, v11, fy), fx)
}

/// The terrain height at a world point, in milli-units: the first channel
/// stretched over the depth range.
pub open spec fn height_s(t: TerrainView, p: V2) -> int {
    channel_value_s(t, 0, p) * 2 + DEEPEST_DEPTH as int
}

impl Terrain {
    /// Build a terrain field from raw RGBA data, refusing dimensions that
    /// are zero, over the cap, or that disagree with the buffer length.
    pub fn from_rgba(width: u32, height: u32, pixels: Vec<u8>) -> (r: Option<Terrain>)
        ensures
            r is Some <==> (1 <= width <= MAX_GRID_SIDE && 1 <= height <= MAX_GRID_SIDE
                && pixels@.len() == 4 * (width as int) * (height as int)),
            r matches Some(t) ==> t@ == (TerrainView {
                width: width as int,
                height: height as int,
                pixels: pixels@,
            }) && terrain_wf(t@),
    {
        if width >= 1 && width <= MAX_GRID_SIDE && height >= 1 && height <= MAX_GRID_SIDE {
            proof {
                assert(4 * (width as int) * (height as int) <= 67_108_864) by (nonlinear_arith)
                    requires
                        1 <= width <= MAX_GRID_SIDE && 1 <= height <= MAX_GRID_SIDE,
                ;
            }
            let expect: usize = 4 * (width as usize) * (height as usize);
            if pixels.len() == expect {
                return Some(Terrain { width, height, pixels });
            }
        }
        None
    }

    /// Decode a terrain image from encoded bytes (PNG among others) and
    /// build the field from its RGBA pixels.
    pub fn from_encoded(bytes: &Vec<u8>) -> (r: Option<Terrain>)
        ensures
            r matches Some(t) ==> terrain_wf(t@) && decoded_rgba(bytes@) == Some(
                (t@.width as u32, t@.height as u32, t@.pixels),
            ),
            r is None ==> (decoded_rgba(bytes@) is None || (decoded_rgba(bytes@) matches Some(d)
                && !(1 <= d.0 <= MAX_GRID_SIDE && 1 <= d.1 <= MAX_GRID_SIDE))),
    {
        match decode_rgba(bytes) {
            Some((w, h, px)) => {
                match Self::from_rgba(w, h, px) {
                    Some(t) => Some(t),
                    None => None,
                }
            },
            None => None,
        }
    }

    /// The grid dimensions.
    pub fn dimensions(&self) -> (r: (u32, u32))
        ensures
            r.0 as int == self@.width,
            r.1 as int == self@.height,
    {
        (self.width, self.height)
    }

    /// One channel of one pixel, clamped to the grid and vertically
    /// flipped.
    fn get_pixel_channel(&self, x: i64, y: i64, ch: usize) -> (r: u8)
        requires
            terrain_wf(self@),
            ch < 4,
            -100_000_000 <= x <= 100_000_000,
            -100_000_000 <= y <= 100_000_000,
        ensures
            r as int == pixel_s(self@, x as int, y as int, ch as int),
    {
        let w = self.width as i64;
        let h = self.height as i64;
        let cx: i64 = if x < 0 {
            0
        } else if x > w - 1 {
            w - 1
        } else {
            x
        };
        let flipped: i64 = h - y - 1;
        let cy: i64 = if flipped < 0 {
            0
        } else if flipped > h - 1 {
            h - 1
        } else {
            flipped
        };
        proof {
            assert(0 <= (cy as int) * (w as int) <= 16_777_216 && 4 * ((cy as int) * (w as int)
                + cx as int) + ch < 4 * (w as int) * (h as int) && 4 * (w as int) * (h as int)
                <= 67_108_864) by (nonlinear_arith)
                requires
                    0 <= cx <= w - 1,
                    0 <= cy <= h - 1,
                    ch < 4,
                    1 <= w <= 4096,
                    1 <= h <= 4096,
            ;
        }
        let idx64: i64 = 4 * (cy * w + cx) + (ch as i64);
        let idx: usize = idx64 as usize;
        self.pixels[idx]
    }

    /// A channel value in `[0, 1000]` at a world point.
    #[verifier::rlimit(80)]
    pub fn get_channel_value(&self, channel: usize, pos: Vec2Fx) -> (r: i64)
        requires
            terrain_wf(self@),
            channel < 4,
            crate::vec2::in_box_s(pos@, 100_000_000),
        ensures
            r == channel_value_s(self@, channel as int, pos@),
            0 <= r <= 1000,
    {
        let w = self.width as i64;
        proof {
            assert(abs_s((pos@.x + SIZE) * (w as int)) <= 41_370_624_000_000 && abs_s(
                (pos@.y + SIZE) * (w as int),
            ) <= 41_370_624_000_000) by (nonlinear_arith)
                requires
                    abs_s(pos@.x) <= 100_000_000,
                    abs_s(pos@.y) <= 100_000_000,
                    abs_s(pos@.x) == (if pos@.x < 0 {
                        -pos@.x
                    } else {
                        pos@.x
                    }),
                    abs_s(pos@.y) == (if pos@.y < 0 {
                        -pos@.y
                    } else {
                        pos@.y
                    }),
                    1 <= w <= MAX_GRID_SIDE,
            ;
        }
        let nx_raw = (pos.x + SIZE) * w;
        let ny_raw = (pos.y + SIZE) * w;
        let hi = 200_000 * w - 1;
        let nx: i64 = if nx_raw < 0 {
            0
        } else if nx_raw > hi {
            hi
        } else {
            nx_raw
        };
        let ny: i64 = if ny_raw < 0 {
            0
        } else if ny_raw > hi {
            hi
        } else {
            ny_raw
        };
        let ix = nx / 200_000;
        let iy = ny / 200_000;
        let fx = ((nx % 200_000) * 1000) / 200_000;
        let fy = ((ny % 200_000) * 1000) / 200_000;
        let p00 = self.get_pixel_channel(ix, iy, channel) as i64;
        let p01 = self.get_pixel_channel(ix, iy + 1, channel) as i64;
        let p10 = self.get_pixel_channel(ix + 1, iy, channel) as i64;
        let p11 = self.get_pixel_channel(ix + 1, iy + 1, channel) as i64;
        proof {
            lemma_byte_milli(p00 as int);
            lemma_byte_milli(p01 as int);
            lemma_byte_milli(p10 as int);
            lemma_byte_milli(p11 as int);
        }
        let v00 = (p00 * 1000) / 255;
        let v01 = (p01 * 1000) / 255;
        let v10 = (p10 * 1000) / 255;
        let v11 = (p11 * 1000) / 255;
        proof {
            lemma_frac_range(nx as int);
            lemma_frac_range(ny as int);
            lemma_lerp_range(v00 as int, v01 as int, fy as int);
            lemma_lerp_range(v10 as int, v11 as int, fy as int);
        }
        let lo = v00 + ((v01 - v00) * fy) / 1000;
        let hi_v = v10 + ((v11 - v10) * fy) / 1000;
        proof {
            lemma_lerp_range(lo as int, hi_v as int, fx as int);
        }
        let r = lo + ((hi_v - lo) * fx) / 1000;
        r
    }

    /// The terrain height at a world point, in `[-1500, 500]` milli-units.
    pub fn get_height(&self, pos: Vec2Fx) -> (r: i64)
        requires
            terrain_wf(self@),
            crate::vec2::in_box_s(pos@, 100_000_000),
        ensures
            r == height_s(self@, pos@),
            DEEPEST_DEPTH <= r <= HIGHEST_LAND,
    {
        self.get_channel_value(0, pos) * 2 + DEEPEST_DEPTH
    }
}

/// A byte scaled into milli-units lies in `[0, 1000]`.
proof fn lemma_byte_milli(p: int)
    requires
        0 <= p <= 255,
    ensures
        0 <= (p * 1000) / 255 <= 1000,
{
    vstd::arithmetic::div_mod::lemma_div_pos_is_pos(p * 1000, 255);
    vstd::arithmetic::div_mod::lemma_div_is_ordered(p * 1000, 255000, 255);
}

/// A pixel-space fraction lies in `[0, 1000]`.
proof fn lemma_frac_range(n: int)
    requires
        0 <= n,
    ensures
        0 <= ((n % 200_000) * 1000) / 200_000 <= 1000,
{
    vstd::arithmetic::div_mod::lemma_mod_bound(n, 200_000);
    vstd::arithmetic::div_mod::lemma_div_pos_is_pos((n % 200_000) * 1000, 200_000);
    vstd::arithmetic::div_mod::lemma_div_is_ordered((n % 200_000) * 1000, 200_000_000, 200_000);
}

/// Interpolating between two values in `[0, 1000]` at a fraction in
/// `[0, 1000)` stays in `[0, 1000]`.
proof fn lemma_lerp_range(a: int, b: int, f: int)
    requires
        0 <= a <= 1000,
        0 <= b <= 1000,
        0 <= f <= 1000,
    ensures
        0 <= lerp_s(a, b, f) <= 1000,
        lerp_s(a, b, f) == a + div_trunc_s((b - a) * f, 1000),
{
    crate::fx::lemma_abs_mul(b - a, f);
    crate::fx::lemma_div_trunc_props((b - a) * f, 1000);
    crate::fx::lemma_mul_le(abs_s(b - a), 1000, abs_s(f));
    crate::fx::lemma_mul_le(abs_s(f), 1000, 1000);
    assert(1000 * abs_s(f) == abs_s(f) * 1000) by (nonlinear_arith);
    crate::fx::lemma_div_trunc_bound((b - a) * f, 1000, 1000);
    let q = div_trunc_s((b - a) * f, 1000);
    if b >= a {
        assert((b - a) * f >= 0) by (nonlinear_arith)
            requires
                b >= a && f >= 0,
        ;
        assert(abs_s((b - a) * f) <= (b - a) * 1000) by {
            crate::fx::lemma_mul_le(abs_s(f), 1000, b - a);
            assert((b - a) * abs_s(f) == abs_s(f) * (b - a) && (b - a) * 1000 == 1000 * (b - a))
                by (nonlinear_arith);
        }
        crate::fx::lemma_div_trunc_bound((b - a) * f, 1000, b - a);
    } else {
        assert((b - a) * f <= 0) by (nonlinear_arith)
            requires
                b < a && f >= 0,
        ;
        assert(abs_s((b - a) * f) <= (a - b) * 1000) by {
            crate::fx::lemma_mul_le(abs_s(f), 1000, a - b);
            assert((a - b) * abs_s(f) == abs_s(f) * (a - b) && (a - b) * 1000 == 1000 * (a - b))
                by (nonlinear_arith);
        }
        crate::fx::lemma_div_trunc_bound((b - a) * f, 1000, a - b);
    }
}

} // verus!
