# barber

A small non-destructive audio editor. The editing model, the undo history, the
playback transport, key bindings and the editor's position rules are a verified
library (`src/`); the window, audio decoding, playback device and WAV export are
an ordinary program around it (`app/`).

## Library layout

- `region` — one region of the timeline (source span or silence) with gain, DC
  offset and fade envelopes; what it plays at each frame.
- `timeline` — sequences of regions: their frames, and the cut, keep, gap,
  insert and splice-fade operations with the lemmas that relate them.
- `edit` — `EditList`, the edited timeline, with contracts over the frames it
  plays.
- `history` — undo/redo stacks of labelled snapshots and their laws.
- `transport` — the playback position and the per-frame decision of the audio
  callback (play, loop, stop).
- `editor` — where playback starts, loops and stops, how markers follow an
  edit, and how drags and clicks make a selection.
- `keybinds`, `toolbar` — key names, bindings, shortcut text, action labels.
- `peaks` — level selection and pixel-to-block mapping of the peak pyramid.
- `crossing` — which frames a zero-crossing snap tries, and which one it takes.
- `levels` — meter and fader values shared with the audio thread.
- `color` — hex color text, both ways.
- `laws` — properties of the edit operations taken together.

The library is generic over the gain type, so the floating-point values the
program uses pass through it without being inspected.
