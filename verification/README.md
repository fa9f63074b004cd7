# yumi_wini

The verified core of a scrollable-tiling window manager for Windows in the
style of niri: windows live in columns on an endless horizontal strip per
workspace, and focusing a column scrolls it into view.

* `src/` — the library, verified with Verus:
  * `layout` — monitors, workspaces, columns and tiles, every structural
    operation (add, remove, focus, move, consume/expel, sizing), the
    viewport geometry that turns a workspace into window rectangles, and
    laws relating the operations (`layout/laws.rs`).
  * `config` — bindings, actions, window rules, and the KDL configuration
    reader (`config/document.rs` holds the plain KDL tree and the one
    call into the `kdl` crate; `config/reader.rs` what every node means).
  * `input` — key names, combos, bind lookup and matching, the hook
    decisions (which messages are presses, wheel notches, what is
    swallowed), and the packing of key and mouse events into window
    messages (with round-trip laws).
  * `app` — the decisions of the window-manager shell: what a bound action
    does and what a window event changes.
  * `screens` — the layout on the physical monitors: working areas, the
    rectangles to animate to, the window to raise, scrolling to follow
    focus.
  * `win` — the decisions next to the Win32 boundary: which windows are
    managed, the window registry, monitors, WinEvent decoding, the
    borderless style, the focus ring and indicator geometry, UTF-16.
  * `text` — character-sequence utilities and decimal numerals.
* `app/` — the Windows program around the library: hooks, the message
  loop, window placement, monitors, overlays, the configuration file, and
  the floating-point animation engine.
* `tests/` — tests of the library.

Lengths, proportions and weights are integers counting millionths
(`Micros`): 8 px is `8_000_000`, a proportion of 0.5 is `500_000`.
