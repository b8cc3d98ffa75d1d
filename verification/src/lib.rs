//! What the rt terminal decides: which title a pane shows, where a click lands, what a key
//! does, how much of a frame is painted, which setting a row edits and how far it goes.
//!
//! Nothing here reads a file, asks the clock or draws. What the system said is handed in as
//! plain values, or as functions to ask; what is to be done about it is handed back.

pub mod actions;
pub mod app_laws;
pub mod cli;
pub mod commit;
pub mod font_file;
pub mod fonts;
pub mod fonts_laws;
pub mod frame;
pub mod frame_laws;
pub mod menu_laws;
pub mod settings_laws;
pub mod window_laws;
pub mod parts_laws;
pub mod geometry;
pub mod gestures;
pub mod gestures_laws;
pub mod keymap;
pub mod keys;
pub mod keys_laws;
pub mod manual;
pub mod menu;
pub mod menubar_laws;
pub mod menubar_model;
pub mod mouse;
pub mod native;
pub mod overlays;
pub mod overlays_laws;
pub mod pane_title;
pub mod panes;
pub mod panes_laws;
pub mod patch_bay;
pub mod pointer_laws;
pub mod prefs_laws;
pub mod prefs_model;
pub mod prefs_native;
pub mod proc_info;
pub mod proc_liveness;
pub mod proc_stat;
pub mod reactions;
pub mod render;
pub mod ring;
pub mod scale_policy;
pub mod search;
pub mod selection;
pub mod selection_laws;
pub mod settings;
pub mod settings_window;
pub mod startup;
pub mod startup_laws;
pub mod text;
pub mod text_laws;
pub mod tick;
pub mod tick_laws;
pub mod titles_laws;
pub mod wires_laws;
