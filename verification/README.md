# uptime_monitor

The logic of an uptime monitor for network devices, with contracts that Verus proves. Devices are
registered over a REST API, polled over HTTP, and shown on an HTML dashboard with a status bar of
the last 24 hours.

## Layout

`src/` is the verified library.

| Module      | What it holds                                                          |
|-------------|------------------------------------------------------------------------|
| `text`      | decimal numbers, the order of texts, searching in texts                |
| `calendar`  | dates from day counts, ISO time stamps, the clock                      |
| `device`    | devices and the register of devices, a map ordered by id               |
| `metrics`   | the counters of a device                                               |
| `history`   | check results, pruning, the 24 hour bar, averages, recent checks       |
| `store`     | keys of the key-value store, writes to it, and a model of its contents |
| `url`       | splitting URLs into scheme, authority and path                         |
| `router`    | which request asks for what                                            |
| `handler`   | how requests are answered, step by step                                |
| `poll`      | how a device is polled and what its answer means                       |
| `dashboard` | the figures that the dashboard shows                                   |
| `template`  | the fixed parts of the pages                                           |
| `html`      | the pages                                                              |
| `http`      | responses in pieces, request bodies from pieces                        |
| `json`      | JSON bodies that hold nothing but strings                              |
| `service`   | when histories are pruned                                              |

`app/` is the wasmCloud component around the library: the bindings to `wasi:http` and
`wasi:keyvalue`, the JSON forms of the types, and the service loop. It also turns percentages into
floating-point numbers; the library keeps them as a share of two counters.

`tests/` runs the library on concrete values.

## What is not proved

- The library reads the clock through `std::time` and writes JSON through `serde_json`. What is
  claimed of them is stated at the items marked as external in `calendar` and `json`.
- The laws on what is kept speak of the model of the store in `store`: reads give back what was
  written last. That a backend behaves so, and is not written by others between a read and a
  write, is taken for granted. A failed read counts as nothing stored, and a failed write is lost.
- The JSON forms of the types are in `app/`, and nothing is proved of them. A percentage is stored
  as a floating-point number, so it is read back as that number, up to the rounding of JSON, and
  no longer as a share of two counters.
- Percentages as numbers, and their texts on the pages, are computed with floating point in `app/`.
- The loops that carry out the steps of the library are in `app/`: answering a request, polling a
  device, reading and sending bodies, and the service with its two calls to poll and to prune.
  They keep to the order of the steps, and test what the library requires before each call.

The component in `app/` always exports the interface that the service calls.
