# Traffic exporter

A network traffic monitor and Prometheus exporter with a verified core.

- `src/` is the library, verified with Verus: reading frames, counting them per
  source address, attack detection, the limit on location requests, reports and
  metric updates.
- `app/` is the program around it: packet capture, the HTTP server, the location
  service, the Prometheus registry, and the arithmetic of rates, which is done in
  floating point.
- `tests/` runs the library on concrete values.

The library calls two outside crates: `pnet` reads packet headers (`src/wire.rs`)
and `serde_json` writes and reads JSON (`src/json.rs`). What it takes from them
on trust stands in the contracts of the functions marked `external_body` in these
two files, and nowhere else.

| Variable           | Default | Meaning                                 |
|--------------------|---------|-----------------------------------------|
| `EXPORTER_PORT`    | 9100    | HTTP listen port                        |
| `RUST_LOG`         | info    | Log level                               |
| `THRESH_SYN_COUNT` | 500     | SYN packets before a SYN_FLOOD alert    |
| `THRESH_PPS`       | 1000    | Packets/sec before a HIGH_PPS alert     |
| `THRESH_PORTS`     | 100     | Unique ports before a PORT_SCAN alert   |
| `THRESH_MBPS`      | 100     | Megabits/sec before a BANDWIDTH_FLOOD   |

Endpoints: `/metrics`, `/alerts`, `/stats`, `/health`.
