//! Applying changed settings, doing only the work that each change needs.
use vstd::prelude::*;
use vstd::string::*;
use crate::settings::{same_palette, wants_blur, Rgb, Settings, SettingsModel};
use crate::text::same_text;

verus! {

broadcast use vstd::string::group_string_axioms;

/// Whether two settings are the same.
pub fn same_settings(a: &Settings, b: &Settings) -> (r: bool)
    ensures
        r == (a@ == b@),
{
    let numbers: bool = a.font_size == b.font_size && a.background_opacity == b.background_opacity
        && a.scrim_strength == b.scrim_strength && a.macos_blur_radius == b.macos_blur_radius && a.scrollback
        == b.scrollback && a.arrow_accel_max == b.arrow_accel_max;
    let flags: bool = a.background_blur == b.background_blur && a.focus_follows_mouse == b.focus_follows_mouse
        && a.show_titlebar == b.show_titlebar && a.inst_output == b.inst_output && a.inst_heat == b.inst_heat
        && a.inst_latency == b.inst_latency && a.show_jacks == b.show_jacks && a.inst_remote == b.inst_remote
        && a.inst_animate == b.inst_animate && a.arrow_accel == b.arrow_accel;
    let colours: bool = a.foreground == b.foreground && a.background == b.background && same_palette(
        &a.palette,
        &b.palette,
    );
    let texts: bool = same_text(a.font_family.as_str(), b.font_family.as_str()) && same_text(
        a.macos_glass_material.as_str(),
        b.macos_glass_material.as_str(),
    ) && same_text(a.chrome_theme.as_str(), b.chrome_theme.as_str()) && same_text(
        a.term.as_str(),
        b.term.as_str(),
    );
    numbers && flags && colours && texts
}

/// What must be refreshed after a change of the settings.
#[derive(Debug, Clone, Copy, PartialEq, Eq, Structural)]
pub struct Work {
    /// Tell the compositor whether to blur.
    pub blur: bool,
    /// Make room for the titlebars, or take it back, and lay the panes out anew.
    pub titlebar: bool,
    /// Colour every pane anew, and those still to come.
    pub colours: bool,
    /// Load the fonts anew and lay the panes out.
    pub fonts: bool,
    /// The family, too, is another.
    pub family: bool,
}

/// What must be refreshed when the settings `old` become `new`.
pub open spec fn work_between(old: SettingsModel, new: SettingsModel) -> Work {
    Work {
        blur: wants_blur(old) != wants_blur(new),
        titlebar: old.show_titlebar != new.show_titlebar,
        colours: old.foreground != new.foreground || old.background != new.background || old.palette
            != new.palette,
        fonts: old.font_family != new.font_family || old.font_size != new.font_size,
        family: old.font_family != new.font_family,
    }
}

/// Put the settings `new` in the place of `current`, and say what must be refreshed:
/// nothing at all, not even the file they are kept in, where nothing changed. Otherwise
/// they are to be written to that file, and the next frame painted whole.
pub fn commit_settings(current: &mut Settings, new: Settings) -> (r: Option<Work>)
    ensures
        final(current)@ == new@,
        r == (if old(current)@ == new@ {
            None
        } else {
            Some(work_between(old(current)@, new@))
        }),
{
    if same_settings(&new, current) {
        return None;
    }
    let family: bool = !same_text(new.font_family.as_str(), current.font_family.as_str());
    let work: Work = Work {
        blur: new.wants_background_blur() != current.wants_background_blur(),
        titlebar: new.show_titlebar != current.show_titlebar,
        colours: new.foreground != current.foreground || new.background != current.background || !same_palette(
            &new.palette,
            &current.palette,
        ),
        fonts: family || new.font_size != current.font_size,
        family,
    };
    *current = new;
    Some(work)
}

/// A colour that the picker can edit.
#[derive(Debug, Clone, Copy, PartialEq, Eq, Structural)]
pub enum Slot {
    Fg,
    Bg,
    /// An entry of the palette.
    Palette(usize),
}

/// The colour that a swatch shows: the text's, the background's, then those of the
/// palette.
pub fn slot_of_swatch(k: usize) -> (r: Slot)
    ensures
        r == (if k == 0 {
            Slot::Fg
        } else if k == 1 {
            Slot::Bg
        } else {
            Slot::Palette((k - 2) as usize)
        }),
{
    if k == 0 {
        Slot::Fg
    } else if k == 1 {
        Slot::Bg
    } else {
        Slot::Palette(k - 2)
    }
}

/// The settings with a colour in its slot. A slot that the palette does not have is
/// none.
pub open spec fn with_slot(m: SettingsModel, slot: Slot, rgb: Rgb) -> SettingsModel {
    match slot {
        Slot::Fg => SettingsModel { foreground: rgb, ..m },
        Slot::Bg => SettingsModel { background: rgb, ..m },
        Slot::Palette(i) => if i < 16 {
            SettingsModel { palette: m.palette.update(i as int, rgb), ..m }
        } else {
            m
        },
    }
}

/// Write a colour into its slot.
pub fn set_slot(s: &mut Settings, slot: Slot, rgb: Rgb)
    ensures
        final(s)@ == with_slot(old(s)@, slot, rgb),
{
    match slot {
        Slot::Fg => {
            s.foreground = rgb;
        },
        Slot::Bg => {
            s.background = rgb;
        },
        Slot::Palette(i) => {
            if i < 16 {
                s.palette[i] = rgb;
            }
        },
    }
}

} // verus!
