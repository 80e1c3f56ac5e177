# quran-cli

A Quran reader for the terminal, with its logic verified by Verus.

- `src/` is the verified library:
  - `api/types.rs`: ayahs, surahs and search hits, with their views.
  - `data/reference.rs`: parsing references such as `2:255`, `2`,
    `Al-Baqarah 255` or `Al-Baqarah` (surah names are looked up in the data).
  - `data/quran.rs`: the Quran built from its records, lookup of surahs and
    ayahs, case-insensitive search, and picking an ayah by the clock.
  - `text.rs`: white space, trimming, decimal numbers, substring search.
  - `ui/banner.rs`, `ui/browser.rs`, `ui/theme.rs`: the banner animation, the
    browser's navigation and search overlay, and the colour themes.
  - `app.rs`: what each key press and each frame does to the application.
- `app/` is the program around it: the command line, reading and parsing the
  JSON data, the terminal loop and the drawing with ratatui.

The data is read from `data/quran_en.json`, or from the file that the
`QURAN_DATA` environment variable names.
