# badge_access_simulator

A badge-access simulator's core, written in Verus: the facility model
(locations, buildings, rooms and the registry that indexes them), permission
checks and access flows, access events and their filtered output, statistics
and their reports, error recovery decisions, time variance, and the travel
rules of the behavior engine (minimum travel times, where a user is held for
the day, room selection, day-shift and night-shift schedules, and the
resolution of schedule conflicts), the generation of access events from
activities (access attempts along a flow, badge reader failures, curious
users, impossible travelers and their detection), the generation of a
day's events for every user, and the routing of a batch's events to the
day they fall on, where they are counted.

Layout:

- `src/` is the verified library. Each module states its behaviour in
  `requires`/`ensures` contracts over spec functions; the public proof
  functions named `law_*` state properties that span several functions.
- `tests/` exercises the library on concrete values.
- `app/` is the command-line program around it: argument parsing, logging
  set-up, the day-by-day simulation loop, file and JSON input and output, and the floating-point parts
  (coordinates, distances and the travel table built from them,
  percentages, and the draws against floating-point levels that a day's
  schedule takes).
