# MCE Network Inventory

`mce-inventory` sweeps the local network with ARP on a schedule, resolves host
names and MAC vendors, keeps the devices in SQLite and serves a small web UI.
Its rules are stated as contracts and proved with Verus.

## Layout

- `src/` is the verified library.
  - `arp` builds requests and reads replies; `net` and `time` hold addresses
    and points in time as plain values; `text` and `paths` hold what is needed of
    strings and paths.
  - `oui` reads the IEEE vendor CSV and looks vendors up.
  - `scanner` chooses the interface, the hosts and the replies, and says which
    step of a scan follows which.
  - `db` computes what is written to and read from the two tables.
  - `web` computes what the JSON endpoints answer.
  - `config` resolves the settings, `scheduler` says when scans run.
  - `laws` states what holds of several of these together.
- `app/` is the program around it: command line, config file, raw frames,
  reverse DNS, HTTP and SQLite.
- `tests/` runs the library on concrete values.

The functions that verified code calls without proof are marked
`#[verifier::external_body]` or `assume_specification`; a comment above each
names the outside function and what is claimed of it.

## Run

ARP needs raw link-layer frames: run as root or with `CAP_NET_RAW` on Linux, as
Administrator with Npcap on Windows.

    mce-inventory --subnet 10.0.0.0/24 --port 8080 --interval 5 --db-path ./inventory.db

Without flags the settings come from `config.toml` in the working directory, and
without that from the defaults: `192.168.1.0/24`, port 3000 on localhost, every 10
minutes, `./inventory.db`. Flags win over the file.

- `GET /api/devices`: the devices with their status. A device is `online` if it
  was last seen less than 15 minutes ago, else `new` if it was first seen less than
  24 hours ago, else `offline`.
- `GET /api/stats`: summary counts and the last scan.
- `POST /api/scan`: asks for a scan at once and answers `202 Accepted`.
