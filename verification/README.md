# winit platform pieces, verified

`src/` is a Verus library:

- `split` — splitting text into at most `n` pieces at a separator (`splitn`), with
  the proof that the pieces join back to the text.
- `decimal` — reading `i32`/`u32` from text the way `str::parse` does, and writing
  them the way `Display` does, with the proof that what is written reads back.
- `orbital` — the Orbital backend's ids, monitor and video-mode handles, key-event
  extras, and the window path `/scheme/orbital/flags/x/y/w/h/title`: reading it
  (`WindowProperties::new`), writing it (`to_path`), and the proof that the path
  written under the display `/scheme/orbital` (flags with no `/`) reads back to
  the same properties.
- `wayland` — the Wayland extension traits over the Linux backend settings.
- `dpi` — physical positions and sizes.

`app/` holds what talks to the system: Orbital's scheme sockets and clock, the
`ORBITAL_DISPLAY` variable, raw Wayland handles, and the display's scale factor.
