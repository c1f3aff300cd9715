use rand::Rng;
use vstd::prelude::*;

verus! {

/// Smallest side length one brush rectangle may have.
pub const BRUSH_RECT_MIN: u32 = 20;

/// Largest side length one brush rectangle may have.
pub const BRUSH_RECT_MAX: u32 = 100;

/// Largest distance a brush rectangle's centre may sit from the anchor.
pub const BRUSH_MAX_OFFSET: i32 = 75;

/// One axis-aligned rectangle of the brush: an extent, and the offset of its
/// centre from the shared brush anchor, in world coordinates (y axis up).
pub struct BrushRect {
    pub width: u32,
    pub height: u32,
    pub offset_x: i32,
    pub offset_y: i32,
}

impl BrushRect {
    /// Extent and offset lie in the documented generation ranges.
    pub open spec fn wf(self) -> bool {
        &&& BRUSH_RECT_MIN <= self.width <= BRUSH_RECT_MAX
        &&& BRUSH_RECT_MIN <= self.height <= BRUSH_RECT_MAX
        &&& -BRUSH_MAX_OFFSET <= self.offset_x <= BRUSH_MAX_OFFSET
        &&& -BRUSH_MAX_OFFSET <= self.offset_y <= BRUSH_MAX_OFFSET
    }
}

/// The player's brush: a small set of rectangles generated once per painting
/// phase, immutable thereafter, moving rigidly with a shared anchor that the
/// pointer drags around.
pub struct Brush {
    pub rects: Vec<BrushRect>,
}

impl Brush {
    pub open spec fn wf(self) -> bool {
        forall|j: int| 0 <= j < self.rects@.len() ==> (#[trigger] self.rects@[j]).wf()
    }
}

/// Relies on rand::Rng::gen_range on the thread-local generator: the result
/// lies in the given half-open range. The call panics on an empty range,
/// which the precondition rules out.
#[verifier::external_body]
fn random_in_range(lo: i32, hi: i32) -> (r: i32)
    requires
        lo < hi,
    ensures
        lo <= r < hi,
{
    rand::thread_rng().gen_range(lo..hi)
}

/// Generate the brush of one painting phase: three rectangles with sides
/// drawn from `[BRUSH_RECT_MIN, BRUSH_RECT_MAX]` and centre offsets from
/// `[-BRUSH_MAX_OFFSET, BRUSH_MAX_OFFSET]`. Nothing more is promised of the
/// random draw.
pub fn generate_brush() -> (b: Brush)
    ensures
        b.wf(),
        b.rects@.len() == 3,
{
    let mut rects: Vec<BrushRect> = Vec::new();
    let mut k: usize = 0;
    while k < 3
        invariant
            k <= 3,
            rects@.len() == k,
            forall|j: int| 0 <= j < k ==> (#[trigger] rects@[j]).wf(),
        decreases 3 - k,
    {
        let width = random_in_range(BRUSH_RECT_MIN as i32, BRUSH_RECT_MAX as i32 + 1);
        let height = random_in_range(BRUSH_RECT_MIN as i32, BRUSH_RECT_MAX as i32 + 1);
        let offset_x = random_in_range(-BRUSH_MAX_OFFSET, BRUSH_MAX_OFFSET + 1);
        let offset_y = random_in_range(-BRUSH_MAX_OFFSET, BRUSH_MAX_OFFSET + 1);
        rects.push(
            BrushRect { width: width as u32, height: height as u32, offset_x, offset_y },
        );
        k = k + 1;
    }
    Brush { rects }
}

} // verus!
