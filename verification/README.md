# extended_ui

The decision logic of a set of user-interface widgets (inputs, date
pickers, check boxes, radio buttons, list and choice boxes, tooltips,
badges, dividers, images, hyperlinks and scrolling bodies), written in
Verus with its behaviour stated in contracts and proved.

- `src/` is the verified library. Each module holds the rules of a group
  of widgets as functions from plain values to plain values, or as small
  state machines, together with the laws proved of them (`law_*`).
- `tests/` runs the library on concrete values.
- `app/` holds what talks to the system: the clipboard, the clock, the
  native file dialog, starting browsers and terminals, and the
  floating-point layout arithmetic.
