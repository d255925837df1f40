# fennec

The logic of the Fennec menu-bar writing assistant, proved with Verus.

- `src/` is the verified library:
  - `config`: settings and their defaults, the key of the chosen provider;
  - `prompt`: the prompt of each action, the action menu;
  - `shortcuts`: the global shortcuts and what each one does;
  - `flow`: the steps of one action, from reading the field to writing the
    answer back;
  - `ai`: which reply is kept, which failures are tried again;
  - `ax`: decisions and messages of the accessibility layer;
  - `session`: read checks, undo, tray animation frames;
  - `log`: the bounded in-app log;
  - `models`: which OpenAI models are offered, in what order;
  - `script`: escaping of AppleScript string literals;
  - `tap`: the slap detector's cooldown gate, the helper's command line,
    messages and launchd job;
  - `text`: white space, trimming, search, order and decimal numbers.
- `app/` is the application around it: Tauri commands and tray, HTTP calls,
  macOS Accessibility and AppKit calls, files, sockets, and the accelerometer
  helper's floating-point magnitude.
- `tests/` exercises the library on concrete values.
