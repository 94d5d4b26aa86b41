# sdroxide_ui

The decision logic of the sdroxide radio console, verified with Verus, and the
egui window around it.

* `src/` is the library. Each module states what it decides over mathematical
  models (sequences of characters, maps, integers) and proves it. Public proof
  functions whose names begin with `law_` state what holds across functions.
* `tests/` runs the library on concrete values.
* `app/` draws, and carries events and presses to the library. Geometry in
  floating point lives there.

The modules, by what they decide:

| Modules | Decide |
| --- | --- |
| `session`, `events`, `retry`, `roster` | what a radio's events change, when a lost link is dialled again, what its tab is called |
| `frame`, `panes`, `layout`, `prop` | what is on screen, in which share of the window, and when the next frame is due |
| `logview`, `logrow`, `form`, `qso` | the logbook: its order, its rows, its entry form |
| `net`, `replies`, `import` | lookups, uploads, confirmations and imported files |
| `decodes`, `exchange`, `dials` | the decode list, the exchange beside it, the conventional frequencies |
| `text_modem`, `packet`, `navtex`, `wspr`, `setup` | the panels of the other modes |
| `adsb`, `adsb_map`, `drm` | aircraft and digital broadcasts |
| `text`, `figure`, `clock`, `order`, `keys`, `double`, `mode`, `command`, `ink` | what the others are built from |
