# snappea

The core of a screenshot annotation tool, written in Verus.

- `src/domain.rs`: annotation types (arrows, lines, shapes, pencil strokes,
  text labels, magnifiers, redactions) and their mathematical views.
  Coordinates have a generic scalar type, so the library holds no floats.
- `src/state.rs`: the session state: drawing tools, the annotation history
  with undo/redo, detection results, the current selection, UI style settings.
  Each kind's list (arrows, circles, magnifiers, ...) is a filter of the history.
- `src/handlers.rs`: the drawing-message state machine; `draw_step` states the
  transition, and `handle_draw_msg` is proved to perform it.
- `src/laws.rs`: properties across messages (one tool at a time, undo/redo
  round trips, visible strokes only, clearing keeps the other kind, a commit
  extends only its kind's list, how a pencil stroke is sampled, ...).
- `src/shortcuts.rs`: the keyboard shortcut table and text-editing keys.
- `src/encoder.rs`: codec/container rules, the encoder candidate table, the
  choice of encoders from probe results, and the probe pipeline description.

`app/` holds what stays outside the verified library: floating-point
geometry, font measurement and text rendering, keyboard event conversion,
GStreamer probing and desktop notifications.
