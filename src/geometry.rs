//! Rectangle algebra threaded through every layout and draw operation.
use vstd::prelude::*;

verus! {

/// Largest value a `u32` coordinate or dimension can hold.
pub const U32_MAX: u64 = 4294967295;

/// A rectangle on the display: origin plus unsigned extent.
#[derive(Clone, Copy, Debug, PartialEq, Eq, Structural)]
pub struct DrawRect {
    pub left: u32,
    pub top: u32,
    pub width: u32,
    pub height: u32,
}

/// Clamps an integer into the range of `u32`, saturating at both ends.
pub open spec fn clamp_u32(x: int) -> u32 {
    if x < 0 {
        0
    } else if x > U32_MAX {
        U32_MAX as u32
    } else {
        x as u32
    }
}

/// Reduces an integer modulo 2^32, as a coordinate that wraps.
pub open spec fn wrap_u32(x: int) -> u32 {
    (x % 0x1_0000_0000) as u32
}

/// Integer division truncating toward zero, for a positive divisor.
pub open spec fn trunc_div(a: int, b: int) -> int {
    if a >= 0 {
        a / b
    } else {
        -((-a) / b)
    }
}

fn clamp_i64(x: i64) -> (r: u32)
    ensures
        r == clamp_u32(x as int),
{
    if x < 0 {
        0
    } else if x > U32_MAX as i64 {
        U32_MAX as u32
    } else {
        x as u32
    }
}

/// A signed fraction `num / den` of a length; a zero denominator means zero.
#[derive(Clone, Copy, Debug, PartialEq, Eq, Structural)]
pub struct Fraction {
    pub num: i32,
    pub den: u32,
}

impl Fraction {
    /// The share of `len` that this fraction names, truncated toward zero
    /// and saturated to the range of `i32`.
    pub open spec fn of_spec(self, len: u32) -> i32 {
        if self.den == 0 {
            0
        } else {
            let q = trunc_div(len * self.num, self.den as int);
            if q < i32::MIN {
                i32::MIN
            } else if q > i32::MAX {
                i32::MAX
            } else {
                q as i32
            }
        }
    }

    pub fn of(self, len: u32) -> (r: i32)
        ensures
            r == self.of_spec(len),
    {
        if self.den == 0 {
            return 0;
        }
        assert(-0x8000_0000_0000_0000 < len * self.num < 0x8000_0000_0000_0000) by (nonlinear_arith)
            requires
                0 <= len <= U32_MAX,
                i32::MIN <= self.num <= i32::MAX,
        ;
        let p: i64 = len as i64 * self.num as i64;
        let q: i64 = if p >= 0 {
            p / self.den as i64
        } else {
            -((-p) / self.den as i64)
        };
        if q < i32::MIN as i64 {
            i32::MIN
        } else if q > i32::MAX as i64 {
            i32::MAX
        } else {
            q as i32
        }
    }
}

/// A rectangle property: whether it covers no pixel.
pub trait Empty {
    spec fn is_empty(&self) -> bool;

    fn empty(&self) -> (r: bool)
        ensures
            r == self.is_empty(),
    ;
}

impl Empty for DrawRect {
    open spec fn is_empty(&self) -> bool {
        self.width == 0 || self.height == 0
    }

    fn empty(&self) -> (r: bool) {
        self.width == 0 || self.height == 0
    }
}

impl DrawRect {
    pub open spec fn has_no_area(self) -> bool {
        self.width == 0 || self.height == 0
    }

    /// Whether the point lies in the half-open box `[left, left + width)`
    /// by `[top, top + height)`.
    pub open spec fn contains_spec(self, x: int, y: int) -> bool {
        self.left <= x < self.left + self.width && self.top <= y < self.top + self.height
    }

    pub fn contains(&self, x: u32, y: u32) -> (r: bool)
        ensures
            r == self.contains_spec(x as int, y as int),
    {
        let l = self.left as u64;
        let t = self.top as u64;
        l <= x as u64 && (x as u64) < l + self.width as u64 && t <= y as u64 && (y as u64) < t
            + self.height as u64
    }

    /// Moves the top edge down by `m` (up when negative), shrinking the height.
    pub open spec fn margin_top_spec(self, m: int) -> DrawRect {
        DrawRect { top: clamp_u32(self.top + m), height: clamp_u32(self.height - m), ..self }
    }

    /// Moves the left edge right by `m`, shrinking the width.
    pub open spec fn margin_left_spec(self, m: int) -> DrawRect {
        DrawRect { left: clamp_u32(self.left + m), width: clamp_u32(self.width - m), ..self }
    }

    /// Pulls the right edge in by `m`.
    pub open spec fn margin_right_spec(self, m: int) -> DrawRect {
        DrawRect { width: clamp_u32(self.width - m), ..self }
    }

    /// Pulls the bottom edge in by `m`.
    pub open spec fn margin_bottom_spec(self, m: int) -> DrawRect {
        DrawRect { height: clamp_u32(self.height - m), ..self }
    }

    /// Moves the origin by a pixel delta; coordinates wrap as machine words.
    pub open spec fn offset_spec(self, dx: int, dy: int) -> DrawRect {
        DrawRect { left: wrap_u32(self.left + dx), top: wrap_u32(self.top + dy), ..self }
    }

    pub fn margin_top(self, m: i64) -> (r: DrawRect)
        requires
            i32::MIN - U32_MAX <= m <= i32::MAX + U32_MAX,
        ensures
            r == self.margin_top_spec(m as int),
    {
        DrawRect {
            top: clamp_i64(self.top as i64 + m),
            height: clamp_i64(self.height as i64 - m),
            ..self
        }
    }

    pub fn margin_left(self, m: i64) -> (r: DrawRect)
        requires
            i32::MIN - U32_MAX <= m <= i32::MAX + U32_MAX,
        ensures
            r == self.margin_left_spec(m as int),
    {
        DrawRect {
            left: clamp_i64(self.left as i64 + m),
            width: clamp_i64(self.width as i64 - m),
            ..self
        }
    }

    pub fn margin_right(self, m: i64) -> (r: DrawRect)
        requires
            i32::MIN - U32_MAX <= m <= i32::MAX + U32_MAX,
        ensures
            r == self.margin_right_spec(m as int),
    {
        DrawRect { width: clamp_i64(self.width as i64 - m), ..self }
    }

    pub fn margin_bottom(self, m: i64) -> (r: DrawRect)
        requires
            i32::MIN - U32_MAX <= m <= i32::MAX + U32_MAX,
        ensures
            r == self.margin_bottom_spec(m as int),
    {
        DrawRect { height: clamp_i64(self.height as i64 - m), ..self }
    }

    pub fn offset(self, dx: i32, dy: i32) -> (r: DrawRect)
        ensures
            r == self.offset_spec(dx as int, dy as int),
    {
        DrawRect { left: wrap_add(self.left, dx), top: wrap_add(self.top, dy), ..self }
    }
}

fn wrap_add(a: u32, d: i32) -> (r: u32)
    ensures
        r == wrap_u32(a + d),
{
    let t: i64 = a as i64 + d as i64;
    if t < 0 {
        (t + 0x1_0000_0000) as u32
    } else if t >= 0x1_0000_0000 {
        (t - 0x1_0000_0000) as u32
    } else {
        t as u32
    }
}

} // verus!
