# rt

A tiling terminal, in two parts.

`src/` is the library: what rt decides about text and whole numbers, with contracts that
Verus proves. It is grouped by what is decided:

- titles, processes and the display's scale: `pane_title`, `proc_info`, `proc_liveness`,
  `proc_stat`, `scale_policy`
- menus and keys: `keymap`, `menu`, `menubar_model`, `menubar_laws`, `keys`, `native`
- preferences: `settings`, `ring`, `prefs_model`, `prefs_native`, `prefs_laws`,
  `settings_window`, `commit`
- the pointer and the text under it: `geometry`, `mouse`, `gestures`, `selection`, `search`
- what is open over the terminal, and what an event does: `overlays`, `actions`, `reactions`
- wires between panes: `patch_bay`
- painting: `fonts`, `font_file`, `render`, `frame`, `panes`, `manual`
- starting up and going on: `cli`, `startup`, `tick`

`app/` is the program round it: windows, files, processes, OpenGL, and floating-point
animation. The terminal engine itself (the panes, their layout and their shells) is another
crate, which the program reaches through the traits in `app/host.rs`.

Sizes and opacities are held in thousandths, scale factors in billionths, and places in the
window in 64ths of a pixel, so that everything the library proves is about whole numbers.
