//! What a change of the display's scale factor must do, as plain data.
//!
//! A scale change arrives together with a new surface size, and both are paid for
//! once, when the window has held still: the change records that a font reload is
//! owed, suspends painting, and lets the resize settle do surface, fonts and reflow
//! in one go.
//!
//! A factor is held in billionths: `2_000_000_000` is a factor of two.
use vstd::prelude::*;

verus! {

/// Scale factors no further apart than this are the same factor, re-reported. In
/// billionths: a millionth.
pub const SCALE_EPSILON: i64 = 1_000;

/// What a change of the scale factor must do to the window.
#[derive(Debug, Clone, Copy, PartialEq, Eq, Structural)]
pub struct ScaleArm {
    /// Arm the resize settle, and push it out to a full settle from now.
    pub arm_settle: bool,
    /// The settle owes a font reload at the new scale, not just a reflow.
    pub reload_owed: bool,
    /// Suspend painting until the settle: a frame drawn before it would use the old
    /// cell metrics against the new surface.
    pub suspend_painting: bool,
}

impl ScaleArm {
    /// Everything at once, or nothing.
    pub open spec fn all(on: bool) -> ScaleArm {
        ScaleArm { arm_settle: on, reload_owed: on, suspend_painting: on }
    }

    /// The event changed nothing.
    pub fn ignore() -> (r: ScaleArm)
        ensures
            r == ScaleArm::all(false),
    {
        ScaleArm { arm_settle: false, reload_owed: false, suspend_painting: false }
    }
}

/// Whether a reported factor can be rasterised at: a positive number.
pub open spec fn usable(reported: Option<i64>) -> bool {
    reported is Some && reported->0 > 0
}

/// Whether two factors are one factor, as far as a raster can show.
pub open spec fn same_factor(a: int, b: int) -> bool {
    -SCALE_EPSILON <= a - b <= SCALE_EPSILON
}

/// Whether a reported factor can be rasterised at, and is another than the one that the
/// cell on screen was measured at.
pub open spec fn differs(loaded_at: i64, reported: Option<i64>) -> bool {
    usable(reported) && !same_factor(reported->0 as int, loaded_at as int)
}

/// Once the fonts are loaded at a factor, a report of it asks for nothing any more. Where a
/// factor differs from the one on screen, going back to that one differs, too.
pub proof fn a_reload_ends_the_matter(loaded_at: i64, factor: i64)
    ensures
        !differs(factor, Some(factor)),
        differs(loaded_at, Some(factor)) && loaded_at > 0 ==> differs(factor, Some(loaded_at)),
{
}

/// Decide what a reported factor must do, given that the cell on screen was measured
/// at `loaded_at`. `None` is a report that is no finite number; like zero and the
/// negative ones it is refused, and the last good metrics stay.
pub fn on_scale_factor_changed(loaded_at: i64, reported: Option<i64>) -> (r: ScaleArm)
    ensures
        r == ScaleArm::all(differs(loaded_at, reported)),
{
    match reported {
        None => ScaleArm::ignore(),
        Some(factor) => {
            if factor <= 0 {
                return ScaleArm::ignore();
            }
            let apart: i128 = factor as i128 - loaded_at as i128;
            if -(SCALE_EPSILON as i128) <= apart && apart <= SCALE_EPSILON as i128 {
                ScaleArm::ignore()
            } else {
                ScaleArm { arm_settle: true, reload_owed: true, suspend_painting: true }
            }
        },
    }
}

/// The size in pixels of a font on a display with this factor.
pub open spec fn physical_size(font_size: int, scale: int) -> int {
    (2 * font_size * scale + 1_000_000_000) / 2_000_000_000
}

/// The size that glyphs are rasterised at, in thousandths of a pixel, for a font size in
/// the same unit on a display with this factor: the nearest.
pub fn physical_font_px(font_size: u32, scale: i64) -> (r: u64)
    requires
        0 < scale <= 1_000_000_000_000,
    ensures
        r == physical_size(font_size as int, scale as int),
{
    proof {
        assert(0 <= 2 * font_size * scale <= 2 * 0xffff_ffff * 1_000_000_000_000) by (nonlinear_arith)
            requires
                0 <= font_size <= 0xffff_ffff,
                0 < scale <= 1_000_000_000_000,
        ;
    }
    let px: u128 = (2 * font_size as u128 * scale as u128 + 1_000_000_000) / 2_000_000_000;
    px as u64
}

/// A font is as large as its size says where the factor is one, and never smaller on a
/// display with a greater factor.
pub proof fn a_greater_factor_never_shrinks_a_font(font_size: int, scale: int, greater: int)
    requires
        0 <= font_size,
        0 < scale <= greater,
    ensures
        physical_size(font_size, 1_000_000_000) == font_size,
        physical_size(font_size, scale) <= physical_size(font_size, greater),
{
    assert(2 * font_size * scale <= 2 * font_size * greater) by (nonlinear_arith)
        requires
            0 <= font_size,
            scale <= greater,
    ;
}

/// The work the settle owes once size and scale have held still.
#[derive(Debug, Clone, Copy, PartialEq, Eq, Structural)]
pub struct SettleWork {
    /// Move the surface to the current size. Owed whenever painting was suspended.
    pub resize_surface: bool,
    /// Rasterise the fonts anew and measure the cell. Ends in a reflow.
    pub reload_fonts: bool,
    /// Reflow the panes directly. Owed only when the fonts are not reloaded.
    pub relayout: bool,
}

/// Decide the settle's work.
pub fn settle_work(surface_owed: bool, scale_owed: bool) -> (r: SettleWork)
    ensures
        r == (SettleWork {
            resize_surface: surface_owed,
            reload_fonts: scale_owed,
            relayout: !scale_owed,
        }),
        r.reflows() == 1,
{
    SettleWork { resize_surface: surface_owed, reload_fonts: scale_owed, relayout: !scale_owed }
}

impl SettleWork {
    /// How many times this work reflows the session: directly, and inside a font
    /// reload.
    pub open spec fn reflows(&self) -> nat {
        (if self.relayout { 1nat } else { 0 }) + (if self.reload_fonts { 1nat } else { 0 })
    }

    /// How many times this work reflows the session.
    pub fn reflow_count(&self) -> (n: usize)
        ensures
            n == self.reflows(),
    {
        let direct: usize = if self.relayout { 1 } else { 0 };
        let reload: usize = if self.reload_fonts { 1 } else { 0 };
        direct + reload
    }
}

} // verus!
