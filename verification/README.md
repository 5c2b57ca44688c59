# wifi-caddy

A WiFi provisioning portal for ESP32 devices: an access point with a captive
portal serves a generated configuration page; the configuration struct is
stored in flash and its changes are announced to the application.

## Layout

- `src/` — the verified library.
  - `gen/` — what the `WifiCaddyConfig` derive produces, as functions from the
    struct's fields and attribute items: the config page (`form`, `page`,
    `group`), storage keys and load rules (`store`), the group API and change
    variants (`api`), attribute reading (`attrs`) and crate paths (`paths`).
  - `portal/` — request handling: query parsing (`query`), routing, captive
    redirect and endpoint replies (`handler`), the streamed page (`page`),
    server sizing (`tuning`).
  - `esp/` — the WiFi runner's state machine, the flash mount procedure and
    partition lookup.
  - `text`, `hash`, `strs`, `style`, `config` — shared helpers and types.
  - `laws` — properties of the library as a whole.
- `tests/` — tests run against the compiled library.
- `app/` — the code around it: the derive's `syn`/`quote` glue, the
  edge-http handler and servers, and the ESP32 drivers.
