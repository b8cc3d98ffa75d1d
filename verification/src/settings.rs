//! The user's settings, and the tables they are chosen from.
//!
//! Sizes and opacities are held in thousandths: a font of 18 pixels is `18_000`, an
//! opaque background `1_000`.
use vstd::prelude::*;
use vstd::string::*;

verus! {

broadcast use vstd::string::group_string_axioms;

/// A colour, eight bits a channel.
#[derive(Debug, Clone, Copy, PartialEq, Eq, Structural)]
pub struct Rgb {
    pub r: u8,
    pub g: u8,
    pub b: u8,
}

/// The opacity floor of a background that is not blurred: the window stays visible.
pub const MIN_OPACITY: u32 = 50;

/// The opacity floor while the background is blurred: the blur alone is enough.
pub const MIN_OPACITY_BLURRED: u32 = 0;

/// A background through which nothing shows.
pub const MAX_OPACITY: u32 = 1_000;

/// The most scrollback lines a pane may be given.
pub const MAX_SCROLLBACK: usize = 5_000_000;

/// The most arrow moves one key repeat may send.
pub const MAX_ARROW_ACCEL: u32 = 30;

/// A named set of colours.
#[derive(Debug, Clone)]
pub struct Scheme {
    pub name: String,
    pub foreground: Rgb,
    pub background: Rgb,
    pub palette: [Rgb; 16],
}

/// A material that frosted glass can be made of. An effect view has a blur of its
/// own, whose radius cannot be set.
#[derive(Debug, Clone)]
pub struct Material {
    pub name: String,
    pub effect_view: bool,
}

/// The tables that some settings are chosen from.
#[derive(Debug, Clone)]
pub struct Catalog {
    pub schemes: Vec<Scheme>,
    pub materials: Vec<Material>,
    /// The names of the themes for the application's own chrome.
    pub themes: Vec<String>,
    /// The bounds of the blur radius.
    pub min_blur_radius: u32,
    pub max_blur_radius: u32,
}

/// Everything a user can set.
#[derive(Debug, Clone)]
pub struct Settings {
    pub font_size: u32,
    pub font_family: String,
    pub background_opacity: u32,
    pub background_blur: bool,
    /// How strongly the background is washed out, in thousandths.
    pub scrim_strength: u32,
    pub macos_glass_material: String,
    pub macos_blur_radius: u32,
    pub chrome_theme: String,
    pub foreground: Rgb,
    pub background: Rgb,
    pub palette: [Rgb; 16],
    pub focus_follows_mouse: bool,
    pub show_titlebar: bool,
    pub scrollback: usize,
    pub inst_output: bool,
    pub inst_heat: bool,
    pub inst_latency: bool,
    pub show_jacks: bool,
    pub inst_remote: bool,
    pub inst_animate: bool,
    pub arrow_accel: bool,
    pub arrow_accel_max: u32,
    /// The terminal type that a new pane announces.
    pub term: String,
}

/// What the settings are, with the texts as sequences of characters.
#[verifier::ext_equal]
pub struct SettingsModel {
    pub font_size: int,
    pub font_family: Seq<char>,
    pub background_opacity: int,
    pub background_blur: bool,
    pub scrim_strength: int,
    pub macos_glass_material: Seq<char>,
    pub macos_blur_radius: int,
    pub chrome_theme: Seq<char>,
    pub foreground: Rgb,
    pub background: Rgb,
    pub palette: Seq<Rgb>,
    pub focus_follows_mouse: bool,
    pub show_titlebar: bool,
    pub scrollback: int,
    pub inst_output: bool,
    pub inst_heat: bool,
    pub inst_latency: bool,
    pub show_jacks: bool,
    pub inst_remote: bool,
    pub inst_animate: bool,
    pub arrow_accel: bool,
    pub arrow_accel_max: int,
    pub term: Seq<char>,
}

impl View for Settings {
    type V = SettingsModel;

    open spec fn view(&self) -> SettingsModel {
        SettingsModel {
            font_size: self.font_size as int,
            font_family: self.font_family@,
            background_opacity: self.background_opacity as int,
            background_blur: self.background_blur,
            scrim_strength: self.scrim_strength as int,
            macos_glass_material: self.macos_glass_material@,
            macos_blur_radius: self.macos_blur_radius as int,
            chrome_theme: self.chrome_theme@,
            foreground: self.foreground,
            background: self.background,
            palette: self.palette@,
            focus_follows_mouse: self.focus_follows_mouse,
            show_titlebar: self.show_titlebar,
            scrollback: self.scrollback as int,
            inst_output: self.inst_output,
            inst_heat: self.inst_heat,
            inst_latency: self.inst_latency,
            show_jacks: self.show_jacks,
            inst_remote: self.inst_remote,
            inst_animate: self.inst_animate,
            arrow_accel: self.arrow_accel,
            arrow_accel_max: self.arrow_accel_max as int,
            term: self.term@,
        }
    }
}

/// `x`, or the bound it lies beyond.
pub open spec fn clamped(x: int, lo: int, hi: int) -> int {
    if x < lo {
        lo
    } else if x > hi {
        hi
    } else {
        x
    }
}

/// The least opacity the settings allow.
pub open spec fn opacity_floor(blurred: bool) -> int {
    if blurred {
        MIN_OPACITY_BLURRED as int
    } else {
        MIN_OPACITY as int
    }
}

/// The settings with the opacity moved by `delta`, within its bounds.
pub open spec fn with_opacity(m: SettingsModel, delta: int) -> SettingsModel {
    SettingsModel {
        background_opacity: clamped(
            m.background_opacity + delta,
            opacity_floor(m.background_blur),
            MAX_OPACITY as int,
        ),
        ..m
    }
}

/// Whether there is a blurred background to be seen: asked for, and not hidden behind
/// an opaque one.
pub open spec fn wants_blur(m: SettingsModel) -> bool {
    m.background_blur && m.background_opacity < MAX_OPACITY
}

/// `x`, or the bound it lies beyond.
pub fn clamp(x: i64, lo: i64, hi: i64) -> (r: i64)
    ensures
        r == clamped(x as int, lo as int, hi as int),
{
    if x < lo {
        lo
    } else if x > hi {
        hi
    } else {
        x
    }
}

/// Whether two palettes are the same.
pub fn same_palette(a: &[Rgb; 16], b: &[Rgb; 16]) -> (r: bool)
    ensures
        r == (a@ == b@),
{
    let mut i: usize = 0;
    while i < 16
        invariant
            i <= 16,
            forall|j: int| 0 <= j < i ==> a@[j] == b@[j],
        decreases 16 - i,
    {
        if a[i] != b[i] {
            return false;
        }
        i = i + 1;
    }
    assert(a@ =~= b@);
    true
}

impl Settings {
    /// Another copy of the same settings.
    pub fn copy(&self) -> (r: Settings)
        ensures
            r@ == self@,
    {
        Settings {
            font_size: self.font_size,
            font_family: self.font_family.clone(),
            background_opacity: self.background_opacity,
            background_blur: self.background_blur,
            scrim_strength: self.scrim_strength,
            macos_glass_material: self.macos_glass_material.clone(),
            macos_blur_radius: self.macos_blur_radius,
            chrome_theme: self.chrome_theme.clone(),
            foreground: self.foreground,
            background: self.background,
            palette: self.palette,
            focus_follows_mouse: self.focus_follows_mouse,
            show_titlebar: self.show_titlebar,
            scrollback: self.scrollback,
            inst_output: self.inst_output,
            inst_heat: self.inst_heat,
            inst_latency: self.inst_latency,
            show_jacks: self.show_jacks,
            inst_remote: self.inst_remote,
            inst_animate: self.inst_animate,
            arrow_accel: self.arrow_accel,
            arrow_accel_max: self.arrow_accel_max,
            term: self.term.clone(),
        }
    }

    /// Moves the background's opacity by `delta` thousandths, within its bounds, and
    /// says where it ended.
    pub fn adjust_opacity(&mut self, delta: i32) -> (r: u32)
        ensures
            final(self)@ == with_opacity(old(self)@, delta as int),
            r == final(self).background_opacity,
    {
        let floor: i64 = if self.background_blur {
            MIN_OPACITY_BLURRED as i64
        } else {
            MIN_OPACITY as i64
        };
        let moved: i64 = self.background_opacity as i64 + delta as i64;
        self.background_opacity = clamp(moved, floor, MAX_OPACITY as i64) as u32;
        self.background_opacity
    }

    /// Whether there is a blurred background to be seen.
    pub fn wants_background_blur(&self) -> (r: bool)
        ensures
            r == wants_blur(self@),
    {
        self.background_blur && self.background_opacity < MAX_OPACITY
    }
}

} // verus!
