use vstd::pervasive::VecAdditionalExecFns;
use vstd::prelude::*;

verus! {

use vstd::arithmetic::div_mod::{
    lemma_div_pos_is_pos, lemma_fundamental_div_mod, lemma_fundamental_div_mod_converse,
    lemma_mod_division_less_than_divisor, lemma_multiply_divide_lt,
};

/// Largest side length a canvas may have. Keeps every byte index, and the
/// scaled score arithmetic downstream, comfortably inside the machine
/// integer ranges on 32-bit and 64-bit targets alike.
pub const MAX_DIM: usize = 16384;

/// Byte offset of the first channel of the pixel at column `x`, row `y` of a
/// row-major RGBA buffer that is `width` pixels wide.
pub open spec fn byte_index(width: int, x: int, y: int) -> int {
    (y * width + x) * 4
}

/// The four channel values a painted pixel holds: opaque red.
pub open spec fn painted_byte(k: int) -> u8 {
    if k == 0 || k == 3 {
        255
    } else {
        0
    }
}

/// Pixel number `p` of the buffer holds the four given channel values.
pub open spec fn pixel_is(s: Seq<u8>, p: int, r: u8, g: u8, b: u8, a: u8) -> bool {
    &&& s[4 * p] == r
    &&& s[4 * p + 1] == g
    &&& s[4 * p + 2] == b
    &&& s[4 * p + 3] == a
}

/// Channel `k` of a pixel filled with the four given channel values.
pub open spec fn fill_byte(k: int, r: u8, g: u8, b: u8, a: u8) -> u8 {
    if k == 0 {
        r
    } else if k == 1 {
        g
    } else if k == 2 {
        b
    } else {
        a
    }
}

/// A buffer of `pixels` pixels, each filled with the given channel values.
pub open spec fn fill_spec(pixels: int, r: u8, g: u8, b: u8, a: u8) -> Seq<u8> {
    Seq::new((4 * pixels) as nat, |i: int| fill_byte(i % 4, r, g, b, a))
}

/// The buffer after painting the single pixel at `(x, y)`: the pixel's four
/// bytes become opaque red when the coordinate is on the canvas; a coordinate
/// off the canvas changes nothing (clipping, never an error).
pub open spec fn color_pixel_spec(s: Seq<u8>, width: int, height: int, x: int, y: int) -> Seq<u8> {
    if 0 <= x < width && 0 <= y < height {
        let b = byte_index(width, x, y);
        s.update(b, 255u8).update(b + 1, 0u8).update(b + 2, 0u8).update(b + 3, 255u8)
    } else {
        s
    }
}

/// Column of the pixel that byte `i` of the buffer belongs to.
pub open spec fn px_of(width: int, i: int) -> int {
    (i / 4) % width
}

/// Row of the pixel that byte `i` of the buffer belongs to.
pub open spec fn py_of(width: int, i: int) -> int {
    (i / 4) / width
}

/// The axis-aligned stamp rectangle with top-left corner `(left, top)` and
/// extent `rw` by `rh` covers the pixel at column `x`, row `y`.
pub open spec fn in_stamp(x: int, y: int, left: int, top: int, rw: int, rh: int) -> bool {
    left <= x < left + rw && top <= y < top + rh
}

/// The buffer after stamping one rectangle: every pixel the rectangle covers
/// becomes opaque red, every other byte keeps its value. Pixels of the
/// rectangle that hang off the canvas have no byte in the buffer, so they are
/// dropped by construction.
pub open spec fn stamp_rect_spec(
    s: Seq<u8>,
    width: int,
    left: int,
    top: int,
    rw: int,
    rh: int,
) -> Seq<u8> {
    Seq::new(
        s.len(),
        |i: int|
            if in_stamp(px_of(width, i), py_of(width, i), left, top, rw, rh) {
                painted_byte(i % 4)
            } else {
                s[i]
            },
    )
}

/// The buffer in the middle of stamping a rectangle column by column: the
/// first `dx` columns are fully painted and the next column is painted for
/// its first `dy` rows.
pub open spec fn stamp_partial_spec(
    s: Seq<u8>,
    width: int,
    left: int,
    top: int,
    dx: int,
    dy: int,
    rh: int,
) -> Seq<u8> {
    Seq::new(
        s.len(),
        |i: int|
            if in_stamp(px_of(width, i), py_of(width, i), left, top, dx, rh) || (px_of(width, i)
                == left + dx && top <= py_of(width, i) < top + dy) {
                painted_byte(i % 4)
            } else {
                s[i]
            },
    )
}

/// An owned, fixed-size grid of 4-byte RGBA pixels, row-major, origin at the
/// top left. The player paints into one of these; another holds the target
/// image the painting is scored against.
pub struct Canvas {
    pub width: usize,
    pub height: usize,
    pub data: Vec<u8>,
}

impl Canvas {
    /// The shape invariant: one 4-byte pixel per grid cell, sides bounded.
    pub open spec fn wf(self) -> bool {
        &&& self.data@.len() == self.width * self.height * 4
        &&& self.width <= MAX_DIM
        &&& self.height <= MAX_DIM
    }

    /// A fresh canvas with every pixel set to the given channel values.
    pub fn new_fill(width: usize, height: usize, r: u8, g: u8, b: u8, a: u8) -> (c: Canvas)
        requires
            width <= MAX_DIM,
            height <= MAX_DIM,
        ensures
            c.wf(),
            c.width == width,
            c.height == height,
            c.data@ == fill_spec(width * height, r, g, b, a),
            forall|p: int| 0 <= p < width * height ==> #[trigger] pixel_is(c.data@, p, r, g, b, a),
    {
        proof {
            lemma_area_bounded(width as int, height as int);
        }
        let total: usize = width * height;
        let mut data: Vec<u8> = Vec::new();
        let mut p: usize = 0;
        while p < total
            invariant
                p <= total,
                total == width * height,
                data@ == fill_spec(p as int, r, g, b, a),
            decreases total - p,
        {
            let ghost prev = data@;
            data.push(r);
            data.push(g);
            data.push(b);
            data.push(a);
            proof {
                assert(prev.len() == 4 * p);
                assert forall|i: int| 0 <= i < 4 * (p + 1) implies data@[i] == fill_byte(
                    i % 4,
                    r,
                    g,
                    b,
                    a,
                ) by {
                    if i < 4 * p {
                        assert(data@[i] == prev[i]);
                    } else {
                        lemma_fundamental_div_mod_converse(i, 4, p as int, i - 4 * p);
                        assert(i % 4 == i - 4 * p);
                    }
                }
                assert(data@ =~= fill_spec(p as int + 1, r, g, b, a));
            }
            p = p + 1;
        }
        proof {
            assert forall|p2: int| 0 <= p2 < width * height implies #[trigger] pixel_is(
                data@,
                p2,
                r,
                g,
                b,
                a,
            ) by {
                lemma_fundamental_div_mod_converse(4 * p2, 4, p2, 0);
                lemma_fundamental_div_mod_converse(4 * p2 + 1, 4, p2, 1);
                lemma_fundamental_div_mod_converse(4 * p2 + 2, 4, p2, 2);
                lemma_fundamental_div_mod_converse(4 * p2 + 3, 4, p2, 3);
            }
        }
        Canvas { width, height, data }
    }

    /// Paint the single pixel at canvas coordinate `(x, y)` opaque red.
    /// Coordinates off the canvas are silently dropped.
    pub fn color_pixel(&mut self, x: i64, y: i64)
        requires
            old(self).wf(),
        ensures
            final(self).wf(),
            final(self).width == old(self).width,
            final(self).height == old(self).height,
            final(self).data@ == color_pixel_spec(
                old(self).data@,
                old(self).width as int,
                old(self).height as int,
                x as int,
                y as int,
            ),
    {
        if x < 0 || y < 0 || x >= self.width as i64 || y >= self.height as i64 {
            return ;
        }
        let xu: usize = x as usize;
        let yu: usize = y as usize;
        proof {
            lemma_area_bounded(self.width as int, self.height as int);
            lemma_byte_index_in_range(self.width as int, self.height as int, xu as int, yu as int);
        }
        let base: usize = (yu * self.width + xu) * 4;
        self.data.set(base, 255);
        self.data.set(base + 1, 0);
        self.data.set(base + 2, 0);
        self.data.set(base + 3, 255);
    }

    /// Stamp one rectangle: paint every pixel of the `rw`-by-`rh` extent
    /// whose top-left corner is at canvas coordinate `(left, top)`, walking
    /// columns left to right and rows top to bottom. Pixels that hang off the
    /// canvas are silently dropped.
    pub fn paint_rect(&mut self, left: i64, top: i64, rw: u32, rh: u32)
        requires
            old(self).wf(),
            -0x1_0000_0000 <= left <= 0x1_0000_0000,
            -0x1_0000_0000 <= top <= 0x1_0000_0000,
        ensures
            final(self).wf(),
            final(self).width == old(self).width,
            final(self).height == old(self).height,
            final(self).data@ == stamp_rect_spec(
                old(self).data@,
                old(self).width as int,
                left as int,
                top as int,
                rw as int,
                rh as int,
            ),
    {
        let ghost orig = self.data@;
        let ghost w = self.width as int;
        let ghost h = self.height as int;
        proof {
            assert(stamp_partial_spec(orig, w, left as int, top as int, 0, 0, rh as int) =~= orig);
        }
        let mut dx: u32 = 0;
        while dx < rw
            invariant
                self.wf(),
                self.width == old(self).width,
                self.height == old(self).height,
                w == self.width as int,
                h == self.height as int,
                orig.len() == w * h * 4,
                -0x1_0000_0000 <= left <= 0x1_0000_0000,
                -0x1_0000_0000 <= top <= 0x1_0000_0000,
                dx <= rw,
                self.data@ == stamp_partial_spec(
                    orig,
                    w,
                    left as int,
                    top as int,
                    dx as int,
                    0,
                    rh as int,
                ),
            decreases rw - dx,
        {
            let mut dy: u32 = 0;
            while dy < rh
                invariant
                    self.wf(),
                    self.width == old(self).width,
                    self.height == old(self).height,
                    w == self.width as int,
                    h == self.height as int,
                    orig.len() == w * h * 4,
                    -0x1_0000_0000 <= left <= 0x1_0000_0000,
                    -0x1_0000_0000 <= top <= 0x1_0000_0000,
                    dx < rw,
                    dy <= rh,
                    self.data@ == stamp_partial_spec(
                        orig,
                        w,
                        left as int,
                        top as int,
                        dx as int,
                        dy as int,
                        rh as int,
                    ),
                decreases rh - dy,
            {
                self.color_pixel(left + dx as i64, top + dy as i64);
                proof {
                    lemma_stamp_step(
                        orig,
                        w,
                        h,
                        left as int,
                        top as int,
                        dx as int,
                        dy as int,
                        rh as int,
                    );
                }
                dy = dy + 1;
            }
            proof {
                assert(stamp_partial_spec(
                    orig,
                    w,
                    left as int,
                    top as int,
                    dx as int,
                    rh as int,
                    rh as int,
                ) =~= stamp_partial_spec(
                    orig,
                    w,
                    left as int,
                    top as int,
                    dx as int + 1,
                    0,
                    rh as int,
                ));
            }
            dx = dx + 1;
        }
        proof {
            assert(stamp_partial_spec(orig, w, left as int, top as int, rw as int, 0, rh as int)
                =~= stamp_rect_spec(orig, w, left as int, top as int, rw as int, rh as int));
        }
    }
}

/// Painting one more pixel of the current column extends the partially
/// stamped buffer by one row.
proof fn lemma_stamp_step(
    orig: Seq<u8>,
    width: int,
    height: int,
    left: int,
    top: int,
    dx: int,
    dy: int,
    rh: int,
)
    requires
        0 <= width,
        0 <= height,
        0 <= dx,
        0 <= dy,
        orig.len() == width * height * 4,
    ensures
        color_pixel_spec(
            stamp_partial_spec(orig, width, left, top, dx, dy, rh),
            width,
            height,
            left + dx,
            top + dy,
        ) == stamp_partial_spec(orig, width, left, top, dx, dy + 1, rh),
{
    let s1 = stamp_partial_spec(orig, width, left, top, dx, dy, rh);
    let s2 = color_pixel_spec(s1, width, height, left + dx, top + dy);
    let t = stamp_partial_spec(orig, width, left, top, dx, dy + 1, rh);
    let x = left + dx;
    let y = top + dy;
    assert(s1.len() == orig.len());
    assert(t.len() == orig.len());
    if 0 <= x < width && 0 <= y < height {
        lemma_byte_index_in_range(width, height, x, y);
        assert(s2.len() == s1.len());
    } else {
        assert(s2 == s1);
    }
    assert forall|i: int| 0 <= i < t.len() implies s2[i] == t[i] by {
        assert(width > 0 && height > 0) by {
            assert(orig.len() > 0);
        }
        lemma_byte_pixel(width, height, i);
        if 0 <= x < width && 0 <= y < height {
            let b = byte_index(width, x, y);
            lemma_byte_index_in_range(width, height, x, y);
            if b <= i < b + 4 {
                lemma_pixel_bytes(width, x, y, i - b);
                assert(px_of(width, i) == x && py_of(width, i) == y);
                assert(i % 4 == i - b);
                assert(t[i] == painted_byte(i % 4));
                assert(s2[i] == painted_byte(i % 4));
            } else {
                assert(!(px_of(width, i) == x && py_of(width, i) == y));
                assert(s2[i] == s1[i]);
                assert(t[i] == s1[i]);
            }
        } else {
            assert(s2[i] == s1[i]);
            assert(t[i] == s1[i]);
        }
    }
    assert(s2 =~= t);
}

/// Every byte of the buffer belongs to exactly one on-canvas pixel, the one
/// `px_of` and `py_of` name.
pub proof fn lemma_byte_pixel(width: int, height: int, i: int)
    requires
        0 < width,
        0 < height,
        0 <= i < width * height * 4,
    ensures
        0 <= px_of(width, i) < width,
        0 <= py_of(width, i) < height,
        i == byte_index(width, px_of(width, i), py_of(width, i)) + i % 4,
        0 <= i % 4 < 4,
{
    let p = i / 4;
    lemma_fundamental_div_mod(i, 4);
    lemma_mod_division_less_than_divisor(i, 4);
    lemma_div_pos_is_pos(i, 4);
    assert(i < 4 * (width * height)) by (nonlinear_arith)
        requires
            i < width * height * 4,
    ;
    lemma_multiply_divide_lt(i, 4, width * height);
    lemma_fundamental_div_mod(p, width);
    lemma_mod_division_less_than_divisor(p, width);
    lemma_div_pos_is_pos(p, width);
    lemma_multiply_divide_lt(p, width, height);
    assert(i == ((p / width) * width + p % width) * 4 + i % 4) by (nonlinear_arith)
        requires
            i == 4 * p + i % 4,
            p == width * (p / width) + p % width,
    ;
}

/// The four bytes of the on-canvas pixel `(x, y)` are found again by `px_of`,
/// `py_of` and the channel offset.
pub proof fn lemma_pixel_bytes(width: int, x: int, y: int, k: int)
    requires
        0 <= x < width,
        0 <= y,
        0 <= k < 4,
    ensures
        px_of(width, byte_index(width, x, y) + k) == x,
        py_of(width, byte_index(width, x, y) + k) == y,
        (byte_index(width, x, y) + k) % 4 == k,
{
    let p = y * width + x;
    lemma_fundamental_div_mod_converse(p * 4 + k, 4, p, k);
    lemma_fundamental_div_mod_converse(p, width, y, x);
}

/// The pixel area of a canvas with bounded sides fits the machine word.
pub proof fn lemma_area_bounded(width: int, height: int)
    requires
        0 <= width <= MAX_DIM,
        0 <= height <= MAX_DIM,
    ensures
        width * height <= MAX_DIM * MAX_DIM,
{
    assert(width * height <= MAX_DIM * MAX_DIM) by (nonlinear_arith)
        requires
            0 <= width <= MAX_DIM,
            0 <= height <= MAX_DIM,
    ;
}

/// The byte offset of an on-canvas pixel lies within the buffer.
pub proof fn lemma_byte_index_in_range(width: int, height: int, x: int, y: int)
    requires
        0 <= x < width,
        0 <= y < height,
    ensures
        0 <= y * width + x,
        y * width + x < width * height,
        byte_index(width, x, y) + 4 <= width * height * 4,
{
    assert(0 <= y * width + x && y * width + x < width * height && (y * width + x) * 4 + 4 <= width
        * height * 4) by (nonlinear_arith)
        requires
            0 <= x < width,
            0 <= y < height,
    ;
}

} // verus!
