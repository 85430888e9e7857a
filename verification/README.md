# taida_lang_terminal

The core of the `taida-lang/terminal` addon — TTY detection, terminal
size, key and event input, raw mode, Unicode display width and a virtual
screen buffer with a diff renderer — written in Verus, with every
function's behaviour stated in its contract and proved.

## Layout

- `src/` — the verified library.
  - `key`, `event` — decoding key presses, SGR mouse reports and resizes
    from raw bytes; the framers that gather exactly one key or one event
    per read; the resize-notification install order; the result packs.
  - `width` — per-scalar width classes, display width, cell-text
    normalisation, width-bounded truncation and padding.
  - `renderer` — the screen buffer, cell operations, blitting,
    allocation limits, the frame differ and its laws, and the renderer's
    entries over host values.
  - `raw_mode`, `size`, `tty`, `console` — the decisions behind the
    terminal switches and queries on Unix and on the Windows console.
  - `host`, `entry`, `error` — host values, the addon's function table
    and its checks, and the errors it reports.
- `tests/` — tests run against the compiled library.
- `app/` — the addon itself: the host ABI, the function table and the
  system calls, over the library.
