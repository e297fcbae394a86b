use vstd::prelude::*;

use crate::audio::{Level, MAX_CAPACITY, MAX_MAGNITUDE};
use crate::geometry::Rect;

verus! {

/// Maps the level to a scale factor: `scale = level_percent * num / den`.
#[derive(Clone, Copy, Debug, PartialEq, Eq, Structural)]
pub struct ScaleCurve {
    pub num: u32,
    pub den: u32,
}

impl ScaleCurve {
    pub open spec fn wf(&self) -> bool {
        self.den >= 1
    }

    /// The default curve: a level of 100 percent gives a scale of 1.
    pub fn percent() -> (r: ScaleCurve)
        ensures
            r.wf(),
            r.num == 1,
            r.den == 100,
    {
        ScaleCurve { num: 1, den: 100 }
    }

    /// Uses the level in percent itself as the scale factor.
    pub fn raw() -> (r: ScaleCurve)
        ensures
            r.wf(),
            r.num == 1,
            r.den == 1,
    {
        ScaleCurve { num: 1, den: 1 }
    }
}

/// Numerator of the scale factor for `level` under `curve`.
pub open spec fn scale_num(level: Level, curve: ScaleCurve) -> int {
    100 * level.total * curve.num
}

/// Denominator of the scale factor for `level` under `curve`.
pub open spec fn scale_den(level: Level, curve: ScaleCurve) -> int {
    level.count * MAX_MAGNITUDE * curve.den
}

/// A frame side scaled by the factor, rounded down; a negative side counts as
/// zero, and the result saturates at `u32::MAX`.
pub open spec fn scaled_len(len: i32, level: Level, curve: ScaleCurve) -> int {
    scaled_by(len, scale_num(level, curve), scale_den(level, curve))
}

/// `len * sn / sd` rounded down, a negative `len` counting as zero, saturated at `u32::MAX`.
pub open spec fn scaled_by(len: i32, sn: int, sd: int) -> int {
    let l: int = if len < 0 { 0 } else { len as int };
    let v = l * sn / sd;
    if v > u32::MAX { u32::MAX as int } else { v }
}

/// Screen-space rectangle to draw into.
#[derive(Clone, Copy, Debug, PartialEq, Eq, Structural)]
pub struct Placement {
    pub x: i64,
    pub y: i64,
    pub w: u32,
    pub h: u32,
}

/// What one tick draws: the source rectangle in the texture, where it goes on
/// screen, and the scale factor `scale_num / scale_den` that sized it.
#[derive(Clone, Copy, Debug, PartialEq, Eq, Structural)]
pub struct RenderParams {
    pub source: Rect,
    pub dest: Placement,
    pub scale_num: u128,
    pub scale_den: u128,
}

fn scale_side(len: i32, sn: u128, sd: u128) -> (r: u32)
    requires
        sd >= 1,
        sn < 0x4000_0000_0000_0000_0000_0000,
    ensures
        r == scaled_by(len, sn as int, sd as int),
{
    let l: u128 = if len < 0 { 0 } else { len as u128 };
    assert(l * sn < 0x1_0000_0000_0000_0000_0000_0000_0000_0000) by (nonlinear_arith)
        requires
            l < 0x8000_0000,
            sn < 0x4000_0000_0000_0000_0000_0000,
    ;
    let v: u128 = l * sn / sd;
    if v > 0xffff_ffff {
        0xffff_ffff
    } else {
        v as u32
    }
}

/// Source and destination of the current frame, the destination centred on the
/// middle of the screen moved by the offset, its size the frame's times the
/// scale factor that `curve` gives for `level`.
pub fn compute(
    frame: Rect,
    screen_w: u32,
    screen_h: u32,
    offset_x: i32,
    offset_y: i32,
    level: Level,
    curve: ScaleCurve,
) -> (r: RenderParams)
    requires
        level.wf(),
        curve.wf(),
    ensures
        r.source == frame,
        r.scale_num == scale_num(level, curve),
        r.scale_den == scale_den(level, curve),
        r.dest.w == scaled_len(frame.w, level, curve),
        r.dest.h == scaled_len(frame.h, level, curve),
        r.dest.x == screen_w / 2 + offset_x - r.dest.w / 2,
        r.dest.y == screen_h / 2 + offset_y - r.dest.h / 2,
{
    assert(100 * level.total * curve.num <= 100 * MAX_CAPACITY * MAX_MAGNITUDE * 0xffff_ffff) by (nonlinear_arith)
        requires
            level.total <= level.count * MAX_MAGNITUDE,
            level.count <= MAX_CAPACITY,
            curve.num <= 0xffff_ffffu32,
    ;
    assert(level.count * MAX_MAGNITUDE * curve.den <= MAX_CAPACITY * MAX_MAGNITUDE * 0xffff_ffff) by (nonlinear_arith)
        requires
            level.count <= MAX_CAPACITY,
            curve.den <= 0xffff_ffffu32,
    ;
    assert(level.count * MAX_MAGNITUDE * curve.den >= 1) by (nonlinear_arith)
        requires
            level.count >= 1,
            curve.den >= 1,
    ;
    let sn: u128 = 100 * (level.total as u128) * (curve.num as u128);
    let sd: u128 = (level.count as u128) * (MAX_MAGNITUDE as u128) * (curve.den as u128);
    let w = scale_side(frame.w, sn, sd);
    let h = scale_side(frame.h, sn, sd);
    let cx: i64 = (screen_w / 2) as i64 + offset_x as i64;
    let cy: i64 = (screen_h / 2) as i64 + offset_y as i64;
    RenderParams {
        source: frame,
        dest: Placement { x: cx - (w / 2) as i64, y: cy - (h / 2) as i64, w, h },
        scale_num: sn,
        scale_den: sd,
    }
}

} // verus!
