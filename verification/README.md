# cuaca

A weather indicator for [Waybar](https://github.com/Alexays/Waybar/) using
[BMKG](https://www.bmkg.go.id/) forecast data, with its logic verified by
[Verus](https://github.com/verus-lang/verus).

## Layout

- `src/` is the verified library. Verus proves its functions against their
  contracts (`requires` / `ensures`), except a few small trusted wrappers
  marked `#[verifier::external_body]`, whose contracts are assumed: the calls
  into chrono that read and write times and dates (`format`), the system
  clock (`weather_core::location::unix_now`), and std's `String::push`,
  `char::from_u32` and `str::to_lowercase`. Each says in its doc comment
  what it assumes of the outside code; several only name their result.
  - `cli::run` builds the Waybar output (bar text, tooltip, CSS class) from
    forecast values; `terminal` and `display::terminal` build the terminal
    report and its chart panels;
  - `color` paints text with ANSI colours and turns ANSI colour sequences into
    Pango markup; `util` escapes Pango markup;
  - `format`, `graphs`, `weather_core::graphs` format temperatures, times,
    wind directions, custom indicators, sparklines, braille curves, column
    charts and time axes;
  - `weather_core::location` and `weather_core::location_remote` choose how a
    location is resolved, run the circuit breaker that guards the village
    lookup service and decide the steps of its retrying request loop;
  - `weather_core::warnings` names cached alerts and chooses the warnings to
    show; `weather_core::weather` names the forecast cache and judges its age;
  - `sort` orders texts and sorts stably by a text key; `stats` selects and
    groups the archived forecast slots by date and hour and lays out the
    statistics table; `lang` holds the labels.
- `app/` is the program around the library: argument parsing, HTTP requests,
  files and caches, the server and client, and the computations in floating
  point (chart scales, polygons, means and deviations).
- `tests/` exercises the library on concrete values.
