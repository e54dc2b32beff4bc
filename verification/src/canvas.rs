//! The surface stack: three same-sized drawing surfaces kept pixel-accurate
//! under device scaling, plus the page offset of the drawable region.

use crate::color::Color;
use crate::offset::Offset;
use vstd::prelude::*;

verus! {

/// Construction-time failure conditions of the surface stack.  Every
/// host-environment failure is surfaced as one of these; construction never
/// partially completes.
#[derive(Debug, PartialEq, Eq, Structural)]
pub enum CanvasError {
    InvalidDocument,
    InvalidElement,
    InvalidStyle,
    InvalidAppend,
    InvalidScale,
    InvalidEvent,
    InvalidWrapperElement,
}

pub type CanvasResult<T> = Result<T, CanvasError>;

/// Device pixel ratio as an exact rational `num / den`: the ratio of
/// physical device pixels to logical units.
#[derive(Clone, Copy, Debug, PartialEq, Eq, Structural)]
pub struct PixelRatio {
    pub num: u32,
    pub den: u32,
}

impl PixelRatio {
    /// A sane device pixel ratio: positive, with both terms bounded so that
    /// scaling arithmetic stays exact.
    pub open spec fn wf(self) -> bool {
        1 <= self.num <= 0x7fffffff && 1 <= self.den <= 0x7fffffff
    }

    pub fn new(num: u32, den: u32) -> (r: Self)
        requires
            1 <= num <= 0x7fffffff,
            1 <= den <= 0x7fffffff,
        ensures
            r == (PixelRatio { num, den }),
            r.wf(),
    {
        Self { num, den }
    }

    /// The identity ratio of a standard-density display.
    pub fn identity() -> (r: Self)
        ensures
            r == (PixelRatio { num: 1u32, den: 1u32 }),
            r.wf(),
    {
        Self { num: 1, den: 1 }
    }
}

/// `len * ratio`, rounded to the nearest integer (halves round up): the
/// backing-store length, in device pixels, of a logical length.
pub open spec fn scaled_len_spec(len: nat, ratio: PixelRatio) -> nat {
    ((2 * len * ratio.num + ratio.den) / (2 * ratio.den as int)) as nat
}

/// `len * ratio`, rounded to the nearest device pixel.
pub fn scaled_len(len: u32, ratio: PixelRatio) -> (r: u32)
    requires
        ratio.wf(),
        scaled_len_spec(len as nat, ratio) <= u32::MAX,
    ensures
        r == scaled_len_spec(len as nat, ratio),
{
    proof {
        assert(2 * (len as int) * (ratio.num as int) + (ratio.den as int) <= 0xffffffffffffffff)
            by (nonlinear_arith)
            requires
                len <= 0xffffffffu32,
                ratio.num <= 0x7fffffff,
                ratio.den <= 0x7fffffff,
        ;
    }
    let wide: u64 = (2 * (len as u64) * (ratio.num as u64) + (ratio.den as u64)) / (2
        * (ratio.den as u64));
    wide as u32
}

/// One drawing surface: an addressable 2D drawing area with its own backing
/// pixel buffer and drawing context.
#[derive(Clone, Copy, Debug, PartialEq, Eq, Structural)]
pub struct Surface {
    /// Backing-store size in device pixels.
    pub backing_width: u32,
    pub backing_height: u32,
    /// Displayed (CSS) size in logical units.
    pub css_width: u32,
    pub css_height: u32,
    /// The uniform scale transform applied to the surface's drawing context.
    pub scale: PixelRatio,
}

impl Surface {
    /// A freshly created surface: backing store and displayed size both at
    /// the logical size, context unscaled.
    pub fn new(width: u32, height: u32) -> (s: Self)
        ensures
            s == (Surface {
                backing_width: width,
                backing_height: height,
                css_width: width,
                css_height: height,
                scale: PixelRatio { num: 1u32, den: 1u32 },
            }),
    {
        Self {
            backing_width: width,
            backing_height: height,
            css_width: width,
            css_height: height,
            scale: PixelRatio::identity(),
        }
    }
}

/// A surface after device-pixel-ratio correction: backing store at the
/// scaled size, displayed size back at the logical size, context scaled by
/// the ratio.
pub open spec fn scaled_surface(width: u32, height: u32, ratio: PixelRatio) -> Surface {
    Surface {
        backing_width: scaled_len_spec(width as nat, ratio) as u32,
        backing_height: scaled_len_spec(height as nat, ratio) as u32,
        css_width: width,
        css_height: height,
        scale: ratio,
    }
}

/// Sum of the `top` components of a chain of per-level positions.
pub open spec fn sum_top(levels: Seq<Offset>) -> int
    decreases levels.len(),
{
    if levels.len() == 0 {
        0
    } else {
        sum_top(levels.drop_last()) + levels.last().top
    }
}

/// Sum of the `left` components of a chain of per-level positions.
pub open spec fn sum_left(levels: Seq<Offset>) -> int
    decreases levels.len(),
{
    if levels.len() == 0 {
        0
    } else {
        sum_left(levels.drop_last()) + levels.last().left
    }
}

/// Every partial sum of the chain stays inside the signed 32-bit range, so
/// the running accumulation neither overflows nor underflows.
pub open spec fn sums_in_range(levels: Seq<Offset>) -> bool {
    forall|i: int|
        0 <= i <= levels.len() ==> i32::MIN <= #[trigger] sum_top(levels.subrange(0, i)) <= i32::MAX
            && i32::MIN <= sum_left(levels.subrange(0, i)) <= i32::MAX
}

/// Page offset of the drawable region: the sum of the position-within-parent
/// of the draw surface and of each positioning ancestor in turn.  The chain
/// is handed in leaf-first, starting with the draw surface itself.
pub fn calc_offset(levels: &Vec<Offset>) -> (o: Offset)
    requires
        sums_in_range(levels@),
    ensures
        o.top == sum_top(levels@),
        o.left == sum_left(levels@),
{
    let mut top: i32 = 0;
    let mut left: i32 = 0;
    let mut i: usize = 0;
    while i < levels.len()
        invariant
            0 <= i <= levels@.len(),
            sums_in_range(levels@),
            top == sum_top(levels@.subrange(0, i as int)),
            left == sum_left(levels@.subrange(0, i as int)),
        decreases levels@.len() - i,
    {
        proof {
            assert(levels@.subrange(0, i + 1).drop_last() =~= levels@.subrange(0, i as int));
            assert(levels@.subrange(0, i + 1).last() == levels@[i as int]);
            assert(sum_top(levels@.subrange(0, i as int + 1)) == sum_top(
                levels@.subrange(0, i as int),
            ) + levels@[i as int].top);
            assert(sum_left(levels@.subrange(0, i as int + 1)) == sum_left(
                levels@.subrange(0, i as int),
            ) + levels@[i as int].left);
        }
        top = top + levels[i].top;
        left = left + levels[i].left;
        i = i + 1;
    }
    proof {
        assert(levels@.subrange(0, levels@.len() as int) =~= levels@);
    }
    Offset::new(top, left)
}

/// Decide executably whether a chain of per-level positions accumulates
/// within the signed 32-bit page-coordinate domain, so that a caller can
/// test [`sums_in_range`] before handing the chain to the offset
/// computation.
pub fn offsets_in_range(levels: &Vec<Offset>) -> (b: bool)
    ensures
        b == sums_in_range(levels@),
{
    let mut top: i64 = 0;
    let mut left: i64 = 0;
    let mut i: usize = 0;
    while i < levels.len()
        invariant
            0 <= i <= levels@.len(),
            top == sum_top(levels@.subrange(0, i as int)),
            left == sum_left(levels@.subrange(0, i as int)),
            i32::MIN <= top <= i32::MAX,
            i32::MIN <= left <= i32::MAX,
            forall|j: int|
                0 <= j <= i ==> i32::MIN <= #[trigger] sum_top(levels@.subrange(0, j))
                    <= i32::MAX && i32::MIN <= sum_left(levels@.subrange(0, j)) <= i32::MAX,
        decreases levels@.len() - i,
    {
        proof {
            assert(levels@.subrange(0, i + 1).drop_last() =~= levels@.subrange(0, i as int));
            assert(levels@.subrange(0, i + 1).last() == levels@[i as int]);
            assert(sum_top(levels@.subrange(0, i as int + 1)) == sum_top(
                levels@.subrange(0, i as int),
            ) + levels@[i as int].top);
            assert(sum_left(levels@.subrange(0, i as int + 1)) == sum_left(
                levels@.subrange(0, i as int),
            ) + levels@[i as int].left);
        }
        let next_top: i64 = top + (levels[i].top as i64);
        let next_left: i64 = left + (levels[i].left as i64);
        if next_top < (i32::MIN as i64) || next_top > (i32::MAX as i64) || next_left < (
        i32::MIN as i64) || next_left > (i32::MAX as i64) {
            proof {
                assert(!sums_in_range(levels@));
            }
            return false;
        }
        top = next_top;
        left = next_left;
        i = i + 1;
    }
    proof {
        assert forall|j: int| 0 <= j <= levels@.len() implies i32::MIN <= #[trigger] sum_top(
            levels@.subrange(0, j),
        ) <= i32::MAX && i32::MIN <= sum_left(levels@.subrange(0, j)) <= i32::MAX by {}
        assert(sums_in_range(levels@));
    }
    true
}

/// The surface stack: logical size, background color, three synchronized
/// surfaces and the current page offset of the drawable region.  The host
/// element handles that drive the stack (container, canvas elements,
/// contexts) live with the embedding layer; this type holds everything the
/// geometry reads and guarantees the stack's invariants.
#[derive(Clone, Copy, Debug, PartialEq, Eq, Structural)]
pub struct Canvas {
    /// Author-specified logical width, independent of device pixels.
    pub width: u32,
    /// Author-specified logical height, independent of device pixels.
    pub height: u32,
    /// Background color of the stack.
    pub background_color: Color,
    /// The surface holding committed strokes; attached first (bottom).
    pub draw_canvas: Surface,
    /// The interaction surface above it, kept visually aligned.
    pub option_canvas: Surface,
    /// The off-screen scratch surface, never attached to the container.
    pub cache_canvas: Surface,
    /// Page offset of the drawable region, per the latest resize notification.
    pub offset: Offset,
}

impl Canvas {
    /// All three surfaces share the same backing size, displayed size and
    /// device-pixel scale, and are displayed at the logical size.
    pub open spec fn wf(self) -> bool {
        &&& self.option_canvas == self.draw_canvas
        &&& self.cache_canvas == self.draw_canvas
        &&& self.draw_canvas.css_width == self.width
        &&& self.draw_canvas.css_height == self.height
        &&& self.draw_canvas.scale.wf()
    }

    /// A freshly constructed stack: three surfaces at the logical size with
    /// unscaled contexts, an opaque-white background, and a zero offset that
    /// the first offset computation replaces.
    pub fn new(width: u32, height: u32) -> (c: Self)
        ensures
            c.wf(),
            c.width == width,
            c.height == height,
            c.background_color == (Color { r: 255u8, g: 255u8, b: 255u8, a: 255u8 }),
            c.draw_canvas == (Surface {
                backing_width: width,
                backing_height: height,
                css_width: width,
                css_height: height,
                scale: PixelRatio { num: 1u32, den: 1u32 },
            }),
            c.offset == (Offset { top: 0i32, left: 0i32 }),
    {
        proof {
            reveal_strlit("#fff");
            assert(crate::color::hex_spec("#fff"@) == Ok::<Color, crate::color::ColorError>(
                Color { r: 255u8, g: 255u8, b: 255u8, a: 255u8 },
            ));
        }
        let background_color = match Color::hex("#fff") {
            Ok(color) => color,
            Err(_) => Color { r: 255, g: 255, b: 255, a: 255 },
        };
        Self {
            width,
            height,
            background_color,
            draw_canvas: Surface::new(width, height),
            option_canvas: Surface::new(width, height),
            cache_canvas: Surface::new(width, height),
            offset: Offset::new(0, 0),
        }
    }

    /// The current offset, by value: callers receive an immutable snapshot.
    pub fn get_offset(&self) -> (o: Offset)
        ensures
            o == self.offset,
    {
        self.offset
    }

    /// Replace the stored offset with the one computed from the freshly
    /// gathered chain of per-level positions; everything else is untouched.
    pub fn update_offset(&mut self, levels: &Vec<Offset>) -> (res: CanvasResult<()>)
        requires
            sums_in_range(levels@),
        ensures
            res is Ok,
            final(self).offset.top == sum_top(levels@),
            final(self).offset.left == sum_left(levels@),
            *final(self) == (Canvas { offset: final(self).offset, ..*old(self) }),
            old(self).wf() ==> final(self).wf(),
    {
        self.offset = calc_offset(levels);
        Ok(())
    }

    /// Both logical dimensions scale to backing sizes that still fit the
    /// 32-bit pixel domain.
    pub open spec fn scalable(self, ratio: PixelRatio) -> bool {
        &&& ratio.wf()
        &&& scaled_len_spec(self.width as nat, ratio) <= u32::MAX
        &&& scaled_len_spec(self.height as nat, ratio) <= u32::MAX
    }

    /// Decide executably whether a ratio can be applied to this stack, so
    /// that a caller can test [`Canvas::scalable`] before scaling.
    pub fn is_scalable(&self, ratio: PixelRatio) -> (b: bool)
        ensures
            b == self.scalable(ratio),
    {
        if ratio.num < 1 || ratio.num > 0x7fffffff || ratio.den < 1 || ratio.den > 0x7fffffff {
            return false;
        }
        proof {
            assert(2 * (self.width as int) * (ratio.num as int) + (ratio.den as int)
                <= 0xffffffffffffffff && 2 * (self.height as int) * (ratio.num as int) + (
            ratio.den as int) <= 0xffffffffffffffff)
                by (nonlinear_arith)
                requires
                    self.width <= 0xffffffffu32,
                    self.height <= 0xffffffffu32,
                    ratio.num <= 0x7fffffff,
                    ratio.den <= 0x7fffffff,
            ;
        }
        let wide_w: u64 = (2 * (self.width as u64) * (ratio.num as u64) + (ratio.den as u64)) / (2
            * (ratio.den as u64));
        let wide_h: u64 = (2 * (self.height as u64) * (ratio.num as u64) + (ratio.den as u64)) / (
        2 * (ratio.den as u64));
        wide_w <= (u32::MAX as u64) && wide_h <= (u32::MAX as u64)
    }

    /// Apply device-pixel-ratio correction to every surface, so that
    /// drawing in logical units renders at full backing-store resolution.
    pub fn init_retina_scaling(&mut self, dpr: PixelRatio) -> (res: CanvasResult<()>)
        requires
            old(self).scalable(dpr),
        ensures
            res is Ok,
            final(self).draw_canvas == scaled_surface(old(self).width, old(self).height, dpr),
            final(self).option_canvas == final(self).draw_canvas,
            final(self).cache_canvas == final(self).draw_canvas,
            final(self).wf(),
            *final(self) == (Canvas {
                draw_canvas: final(self).draw_canvas,
                option_canvas: final(self).option_canvas,
                cache_canvas: final(self).cache_canvas,
                ..*old(self)
            }),
    {
        let _ = self.init_option_retina_scaling(dpr);
        let _ = self.init_draw_retina_scaling(dpr);
        let _ = self.init_cache_retina_scaling(dpr);
        Ok(())
    }

    /// Device-pixel-ratio correction for the interaction surface alone.
    pub fn init_option_retina_scaling(&mut self, dpr: PixelRatio) -> (res: CanvasResult<()>)
        requires
            old(self).scalable(dpr),
        ensures
            res is Ok,
            *final(self) == (Canvas {
                option_canvas: scaled_surface(old(self).width, old(self).height, dpr),
                ..*old(self)
            }),
    {
        let w: u32 = scaled_len(self.width, dpr);
        let h: u32 = scaled_len(self.height, dpr);
        self.option_canvas = Surface {
            backing_width: w,
            backing_height: h,
            css_width: self.width,
            css_height: self.height,
            scale: dpr,
        };
        Ok(())
    }

    /// Device-pixel-ratio correction for the draw surface alone.
    pub fn init_draw_retina_scaling(&mut self, dpr: PixelRatio) -> (res: CanvasResult<()>)
        requires
            old(self).scalable(dpr),
        ensures
            res is Ok,
            *final(self) == (Canvas {
                draw_canvas: scaled_surface(old(self).width, old(self).height, dpr),
                ..*old(self)
            }),
    {
        let w: u32 = scaled_len(self.width, dpr);
        let h: u32 = scaled_len(self.height, dpr);
        self.draw_canvas = Surface {
            backing_width: w,
            backing_height: h,
            css_width: self.width,
            css_height: self.height,
            scale: dpr,
        };
        Ok(())
    }

    /// Device-pixel-ratio correction for the cache surface alone.
    pub fn init_cache_retina_scaling(&mut self, dpr: PixelRatio) -> (res: CanvasResult<()>)
        requires
            old(self).scalable(dpr),
        ensures
            res is Ok,
            *final(self) == (Canvas {
                cache_canvas: scaled_surface(old(self).width, old(self).height, dpr),
                ..*old(self)
            }),
    {
        let w: u32 = scaled_len(self.width, dpr);
        let h: u32 = scaled_len(self.height, dpr);
        self.cache_canvas = Surface {
            backing_width: w,
            backing_height: h,
            css_width: self.width,
            css_height: self.height,
            scale: dpr,
        };
        Ok(())
    }

    /// On a page-resize notification, recompute the offset from the freshly
    /// gathered chain; no debouncing, every notification triggers a full
    /// recomputation.
    pub fn resize_handler(&mut self, levels: &Vec<Offset>)
        requires
            sums_in_range(levels@),
        ensures
            final(self).offset.top == sum_top(levels@),
            final(self).offset.left == sum_left(levels@),
            *final(self) == (Canvas { offset: final(self).offset, ..*old(self) }),
            old(self).wf() ==> final(self).wf(),
    {
        let _ = self.update_offset(levels);
    }
}

} // verus!

