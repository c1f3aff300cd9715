use crate::brush::{Brush, BrushRect};
use crate::canvas::{
    fill_spec, in_stamp, painted_byte, px_of, py_of, stamp_rect_spec, Canvas, MAX_DIM,
};
use vstd::prelude::*;

verus! {

/// Canvas-space left edge of one brush rectangle stamped with the brush
/// anchor at canvas column `ax`. World offsets carry over to canvas columns
/// unchanged; the rectangle is centred on its offset.
pub open spec fn rect_left(ax: int, r: BrushRect) -> int {
    ax + r.offset_x - r.width / 2
}

/// Canvas-space top edge of one brush rectangle stamped with the brush
/// anchor at canvas row `ay`. The world y axis points up, the canvas y axis
/// down, so the world offset enters negated.
pub open spec fn rect_top(ay: int, r: BrushRect) -> int {
    ay - r.offset_y - r.height / 2
}

/// The buffer after stamping every rectangle of the brush in order, with the
/// shared anchor at canvas coordinate `(ax, ay)`.
pub open spec fn stamp_brush_spec(
    s: Seq<u8>,
    width: int,
    ax: int,
    ay: int,
    rects: Seq<BrushRect>,
) -> Seq<u8>
    decreases rects.len(),
{
    if rects.len() == 0 {
        s
    } else {
        stamp_brush_spec(
            stamp_rect_spec(
                s,
                width,
                rect_left(ax, rects[0]),
                rect_top(ay, rects[0]),
                rects[0].width as int,
                rects[0].height as int,
            ),
            width,
            ax,
            ay,
            rects.drop_first(),
        )
    }
}

/// Some rectangle of the brush covers the pixel that byte `i` belongs to.
pub open spec fn brush_covers(width: int, ax: int, ay: int, rects: Seq<BrushRect>, i: int) -> bool {
    exists|j: int|
        0 <= j < rects.len() && #[trigger] in_stamp(
            px_of(width, i),
            py_of(width, i),
            rect_left(ax, rects[j]),
            rect_top(ay, rects[j]),
            rects[j].width as int,
            rects[j].height as int,
        )
}

/// Stamping a further rectangle after the whole brush equals stamping the
/// brush extended by that rectangle.
proof fn lemma_stamp_brush_snoc(
    s: Seq<u8>,
    width: int,
    ax: int,
    ay: int,
    rects: Seq<BrushRect>,
    r: BrushRect,
)
    ensures
        stamp_brush_spec(s, width, ax, ay, rects.push(r)) == stamp_rect_spec(
            stamp_brush_spec(s, width, ax, ay, rects),
            width,
            rect_left(ax, r),
            rect_top(ay, r),
            r.width as int,
            r.height as int,
        ),
    decreases rects.len(),
{
    if rects.len() == 0 {
        let stamped = stamp_rect_spec(
            s,
            width,
            rect_left(ax, r),
            rect_top(ay, r),
            r.width as int,
            r.height as int,
        );
        assert(rects.push(r)[0] == r);
        assert(rects.push(r).drop_first() =~= rects);
        assert(stamp_brush_spec(s, width, ax, ay, rects) == s);
        assert(stamp_brush_spec(stamped, width, ax, ay, rects) == stamped);
        assert(stamp_brush_spec(s, width, ax, ay, rects.push(r)) == stamp_brush_spec(
            stamped,
            width,
            ax,
            ay,
            rects.push(r).drop_first(),
        ));
    } else {
        let s1 = stamp_rect_spec(
            s,
            width,
            rect_left(ax, rects[0]),
            rect_top(ay, rects[0]),
            rects[0].width as int,
            rects[0].height as int,
        );
        assert(rects.push(r)[0] == rects[0]);
        assert(rects.push(r).drop_first() =~= rects.drop_first().push(r));
        lemma_stamp_brush_snoc(s1, width, ax, ay, rects.drop_first(), r);
        assert(stamp_brush_spec(s, width, ax, ay, rects.push(r)) == stamp_brush_spec(
            s1,
            width,
            ax,
            ay,
            rects.push(r).drop_first(),
        ));
        assert(stamp_brush_spec(s, width, ax, ay, rects) == stamp_brush_spec(
            s1,
            width,
            ax,
            ay,
            rects.drop_first(),
        ));
    }
}

/// What stamping the whole brush does to each byte: a byte of a covered
/// pixel holds the painted channel value, every other byte keeps its value,
/// and the buffer keeps its length.
pub proof fn lemma_stamp_brush_pointwise(
    s: Seq<u8>,
    width: int,
    height: int,
    ax: int,
    ay: int,
    rects: Seq<BrushRect>,
)
    requires
        0 <= width,
        0 <= height,
        s.len() == width * height * 4,
    ensures
        stamp_brush_spec(s, width, ax, ay, rects).len() == s.len(),
        forall|i: int|
            0 <= i < s.len() ==> stamp_brush_spec(s, width, ax, ay, rects)[i] == (
            if brush_covers(width, ax, ay, rects, i) {
                painted_byte(i % 4)
            } else {
                s[i]
            }),
    decreases rects.len(),
{
    if rects.len() == 0 {
        assert(forall|i: int| 0 <= i < s.len() ==> !brush_covers(width, ax, ay, rects, i));
    } else {
        let r0 = rects[0];
        let rest = rects.drop_first();
        let s1 = stamp_rect_spec(
            s,
            width,
            rect_left(ax, r0),
            rect_top(ay, r0),
            r0.width as int,
            r0.height as int,
        );
        assert(s1.len() == s.len());
        lemma_stamp_brush_pointwise(s1, width, height, ax, ay, rest);
        let result = stamp_brush_spec(s, width, ax, ay, rects);
        assert(result == stamp_brush_spec(s1, width, ax, ay, rest));
        assert forall|i: int| 0 <= i < s.len() implies result[i] == (
        if brush_covers(width, ax, ay, rects, i) {
            painted_byte(i % 4)
        } else {
            s[i]
        }) by {
            let px = px_of(width, i);
            let py = py_of(width, i);
            if brush_covers(width, ax, ay, rest, i) {
                let j = choose|j: int|
                    0 <= j < rest.len() && #[trigger] in_stamp(
                        px,
                        py,
                        rect_left(ax, rest[j]),
                        rect_top(ay, rest[j]),
                        rest[j].width as int,
                        rest[j].height as int,
                    );
                assert(rects[j + 1] == rest[j]);
                assert(in_stamp(
                    px,
                    py,
                    rect_left(ax, rects[j + 1]),
                    rect_top(ay, rects[j + 1]),
                    rects[j + 1].width as int,
                    rects[j + 1].height as int,
                ));
                assert(brush_covers(width, ax, ay, rects, i));
            } else {
                assert(result[i] == s1[i]);
                if in_stamp(
                    px,
                    py,
                    rect_left(ax, r0),
                    rect_top(ay, r0),
                    r0.width as int,
                    r0.height as int,
                ) {
                    assert(brush_covers(width, ax, ay, rects, i));
                } else {
                    assert(s1[i] == s[i]);
                    if brush_covers(width, ax, ay, rects, i) {
                        let j = choose|j: int|
                            0 <= j < rects.len() && #[trigger] in_stamp(
                                px,
                                py,
                                rect_left(ax, rects[j]),
                                rect_top(ay, rects[j]),
                                rects[j].width as int,
                                rects[j].height as int,
                            );
                        assert(j != 0);
                        assert(rest[j - 1] == rects[j]);
                        assert(in_stamp(
                            px,
                            py,
                            rect_left(ax, rest[j - 1]),
                            rect_top(ay, rest[j - 1]),
                            rest[j - 1].width as int,
                            rest[j - 1].height as int,
                        ));
                        assert(false);
                    }
                }
            }
        }
    }
}

/// Painting is idempotent: stamping the brush a second time at the same
/// anchor leaves the buffer of the first stamp unchanged, because painting
/// sets covered pixels to a fixed value instead of blending.
pub proof fn lemma_paint_idempotent(
    s: Seq<u8>,
    width: int,
    height: int,
    ax: int,
    ay: int,
    rects: Seq<BrushRect>,
)
    requires
        0 <= width,
        0 <= height,
        s.len() == width * height * 4,
    ensures
        stamp_brush_spec(stamp_brush_spec(s, width, ax, ay, rects), width, ax, ay, rects)
            == stamp_brush_spec(s, width, ax, ay, rects),
{
    let once = stamp_brush_spec(s, width, ax, ay, rects);
    let twice = stamp_brush_spec(once, width, ax, ay, rects);
    lemma_stamp_brush_pointwise(s, width, height, ax, ay, rects);
    lemma_stamp_brush_pointwise(once, width, height, ax, ay, rects);
    assert forall|i: int| 0 <= i < once.len() implies twice[i] == once[i] by {}
    assert(twice =~= once);
}

/// Writes land only inside the canvas and inside the stamps: a byte whose
/// pixel no brush rectangle covers keeps its value, and the buffer keeps its
/// length. Pixels of a stamp that hang off the canvas have no byte at all,
/// so no write ever touches a coordinate outside
/// `[0, width) x [0, height)`.
pub proof fn lemma_paint_only_covered(
    s: Seq<u8>,
    width: int,
    height: int,
    ax: int,
    ay: int,
    rects: Seq<BrushRect>,
)
    requires
        0 <= width,
        0 <= height,
        s.len() == width * height * 4,
    ensures
        stamp_brush_spec(s, width, ax, ay, rects).len() == s.len(),
        forall|i: int|
            0 <= i < s.len() && !brush_covers(width, ax, ay, rects, i) ==> stamp_brush_spec(
                s,
                width,
                ax,
                ay,
                rects,
            )[i] == s[i],
{
    lemma_stamp_brush_pointwise(s, width, height, ax, ay, rects);
}

/// Stamp every rectangle of the brush onto the canvas, with the shared
/// anchor at canvas coordinate `(ax, ay)`. Pixels that fall off the canvas
/// are dropped one by one; nothing else changes.
pub fn paint(canvas: &mut Canvas, ax: i64, ay: i64, brush: &Brush)
    requires
        old(canvas).wf(),
        brush.wf(),
        -0x8000_0000 <= ax <= 0x8000_0000,
        -0x8000_0000 <= ay <= 0x8000_0000,
    ensures
        final(canvas).wf(),
        final(canvas).width == old(canvas).width,
        final(canvas).height == old(canvas).height,
        final(canvas).data@ == stamp_brush_spec(
            old(canvas).data@,
            old(canvas).width as int,
            ax as int,
            ay as int,
            brush.rects@,
        ),
{
    let ghost orig = canvas.data@;
    let ghost w = canvas.width as int;
    proof {
        assert(brush.rects@.subrange(0, 0) =~= Seq::<BrushRect>::empty());
    }
    let mut k: usize = 0;
    while k < brush.rects.len()
        invariant
            canvas.wf(),
            canvas.width == old(canvas).width,
            canvas.height == old(canvas).height,
            w == canvas.width as int,
            orig == old(canvas).data@,
            brush.wf(),
            -0x8000_0000 <= ax <= 0x8000_0000,
            -0x8000_0000 <= ay <= 0x8000_0000,
            k <= brush.rects@.len(),
            canvas.data@ == stamp_brush_spec(orig, w, ax as int, ay as int, brush.rects@.subrange(0, k as int)),
        decreases brush.rects@.len() - k,
    {
        let r = &brush.rects[k];
        let left: i64 = ax + r.offset_x as i64 - (r.width / 2) as i64;
        let top: i64 = ay - r.offset_y as i64 - (r.height / 2) as i64;
        canvas.paint_rect(left, top, r.width, r.height);
        proof {
            lemma_stamp_brush_snoc(
                orig,
                w,
                ax as int,
                ay as int,
                brush.rects@.subrange(0, k as int),
                brush.rects@[k as int],
            );
            assert(brush.rects@.subrange(0, k as int).push(brush.rects@[k as int])
                =~= brush.rects@.subrange(0, k as int + 1));
        }
        k = k + 1;
    }
    proof {
        assert(brush.rects@.subrange(0, brush.rects@.len() as int) =~= brush.rects@);
    }
}

/// The arming state of painting. With the `require_release` policy on, the
/// pointer must have been released once since phase entry before painting
/// starts, so a stray click held from the menu cannot pre-fill the canvas;
/// with the policy off, a pressed pointer paints at once.
pub struct PaintArming {
    pub armed: bool,
    pub require_release: bool,
}

impl PaintArming {
    /// A fresh arming state for one painting phase, under the given policy.
    pub fn new(require_release: bool) -> (g: PaintArming)
        ensures
            g.require_release == require_release,
            g.armed == !require_release,
    {
        PaintArming { armed: !require_release, require_release }
    }
}

/// One frame of the painting system. Before painting is armed, a pointer
/// release arms it and nothing is painted this frame; once armed, a pressed
/// pointer stamps the whole brush at the anchor, and an idle pointer changes
/// nothing.
pub fn paint_frame(
    canvas: &mut Canvas,
    arming: &mut PaintArming,
    brush: &Brush,
    ax: i64,
    ay: i64,
    pressed: bool,
    just_released: bool,
)
    requires
        old(canvas).wf(),
        brush.wf(),
        -0x8000_0000 <= ax <= 0x8000_0000,
        -0x8000_0000 <= ay <= 0x8000_0000,
    ensures
        final(canvas).wf(),
        final(canvas).width == old(canvas).width,
        final(canvas).height == old(canvas).height,
        final(arming).require_release == old(arming).require_release,
        final(arming).armed == (old(arming).armed || just_released),
        old(arming).armed && pressed ==> final(canvas).data@ == stamp_brush_spec(
            old(canvas).data@,
            old(canvas).width as int,
            ax as int,
            ay as int,
            brush.rects@,
        ),
        !(old(arming).armed && pressed) ==> final(canvas).data@ == old(canvas).data@,
{
    if !arming.armed {
        if just_released {
            arming.armed = true;
        }
        return ;
    }
    if pressed {
        paint(canvas, ax, ay, brush);
    }
}

/// Convert a world-space position (origin at the canvas centre, y axis up)
/// into canvas pixel coordinates (origin at the top left, y axis down).
pub fn canvas_from_world(wx: i64, wy: i64, width: usize, height: usize) -> (p: (i64, i64))
    requires
        width <= MAX_DIM,
        height <= MAX_DIM,
        -0x4000_0000 <= wx <= 0x4000_0000,
        -0x4000_0000 <= wy <= 0x4000_0000,
    ensures
        p.0 == wx + width as int / 2,
        p.1 == height as int / 2 - wy,
{
    (wx + (width / 2) as i64, (height / 2) as i64 - wy)
}

/// The compute core of cursor tracking: a cursor position in window
/// coordinates becomes the world position the brush anchor moves to.
pub fn world_from_cursor(cx: i64, cy: i64, win_w: u32, win_h: u32) -> (p: (i64, i64))
    requires
        -0x4000_0000 <= cx <= 0x4000_0000,
        -0x4000_0000 <= cy <= 0x4000_0000,
    ensures
        p.0 == cx - win_w as int / 2,
        p.1 == cy - win_h as int / 2,
{
    (cx - (win_w / 2) as i64, cy - (win_h / 2) as i64)
}

/// Side length of the square brush thumbnail: room for the largest
/// rectangle at the farthest offset in every direction.
pub const THUMB_DIM: usize = 100 + 2 * 75;

/// Rasterize the brush once, independent of camera and anchor position:
/// replay every rectangle onto a small opaque white square with the anchor
/// at its centre. The generation bounds keep every stamp fully inside.
pub fn render_thumbnail(brush: &Brush) -> (c: Canvas)
    requires
        brush.wf(),
    ensures
        c.wf(),
        c.width == THUMB_DIM,
        c.height == THUMB_DIM,
        c.data@ == stamp_brush_spec(
            fill_spec((THUMB_DIM * THUMB_DIM) as int, 255, 255, 255, 255),
            THUMB_DIM as int,
            THUMB_DIM as int / 2,
            THUMB_DIM as int / 2,
            brush.rects@,
        ),
{
    let mut c = Canvas::new_fill(THUMB_DIM, THUMB_DIM, 255, 255, 255, 255);
    let half: i64 = (THUMB_DIM / 2) as i64;
    paint(&mut c, half, half, brush);
    c
}

} // verus!
