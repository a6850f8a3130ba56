# nimaproxy

A gateway in front of a chat model service. It rotates API keys, mends requests so that the
service takes them, lets models race for an answer and falls back from one model to the next.

The library under `src/` decides; the program under `app/` does what was decided.

- `json`, `wire`, `text`, `number`, `table`: values, texts and tables.
- `messages`, `mistral`, `params`, `prepare`: from a client's request to the one that goes
  upstream. `message_laws` and `request_laws` state what holds of every such request.
- `pool`, `stats`, `samples`, `router`, `metrics`, `state`, `admission`: keys, models, counters
  and limits.
- `candidates`, `deadline`, `chat`, `solo`, `race`, `racer`, `tally`, `race_flow`, `passthrough`:
  the course of a request. Each step takes what happened and says what to note and what to do
  next.
- `effect`, `upstream`, `turn`, `repetition`: what is noted, and what answers show.
- `endpoints`, `cli`: what the gateway says of itself, and how it is started.

JSON texts are read and written by `serde_json`, behind the few functions of `wire` that Verus
takes on trust; a few more in `text` and `upstream` stand for functions of the standard library.
Times are handed in by the caller, in milliseconds or nanoseconds on its clock.
