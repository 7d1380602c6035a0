# victorin

A watering controller. Valves ("devices") water groups of plants on a cycle;
a shared pump feeds them. The library (`src/`) holds the controller's state
and its rules, each stated as a contract and proved with Verus:

- `config`: the configuration and the request bodies;
- `plant`, `device`: plants, valves and the pump, and the requests that open
  a valve;
- `system`: the controller's state, the plant index built from the
  configuration, the queue of devices to trigger, the completion listeners,
  and the steps of a watering (tick, begin, end);
- `handlers`: what each HTTP request answers and how it changes the state;
- `laws`: properties that span several steps (a watering that begins and
  ends restores the open count and stops an idle pump, a queued device is
  dropped by its pin, an open device is never due, the plant index maps a
  plant to the last device that waters it, and over any interleaving of
  requests, ticks and watering tasks: the open count tracks the waterings in
  flight and never overflows, and the pump runs only while a device handed
  out by a tick is still watering);
- `time`, `text`, `listener`, `json`: instants and durations through
  `chrono`, decimal text, completion signals through `tokio`, and the JSON
  bodies of valve requests through `serde_json`.

`app/` is the program around it: the YAML configuration, the warp server,
the scheduling loops with their timers, the HTTP calls to the valves and the
GPIO pins.
