# DisplayMux

Several computers share one or more displays; DisplayMux switches a display's
input so that it shows the computer that is wanted. The computers find each
other on the local network, pair by a password, and keep their settings for the
shared displays in step.

- `src/` is the library, verified with Verus: which display is meant, which
  input a host is on, what is said to whom, what is stored, and what the user is
  told. Every function states what it returns; what holds of several functions
  together stands beside them as proof functions.
- `tests/` runs the library.
- `app/` is the desktop application around it: windows and tray, the settings
  file, sockets, discovery on the local network, and diagnostic reports.

## Layout of the library

| Modules | What they hold |
| --- | --- |
| `text`, `json`, `lists`, `entries` | texts, JSON, searching and ordering, merging of time-stamped entries |
| `domain`, `error`, `port`, `locale` | displays, inputs, hosts, errors, what is asked of the platform, the two languages |
| `edid`, `connection`, `macos_connection`, `windows_connection` | what an EDID says, and how a display is attached |
| `auth`, `clock`, `agent`, `network`, `discovery` | signed requests, replay protection, addresses, announced hosts |
| `settings`, `migration`, `validation` | what is saved, older shapes of it, and what may be saved |
| `host_order`, `host_alias`, `input_label`, `notes`, `monitor_identity`, `sharing` | what paired hosts agree on |
| `service`, `inventory`, `routes`, `switching`, `dashboard`, `switcher`, `tray`, `messages` | scans, switches, and what is shown of them |
| `diagnostics_upload` | the report that is sent with consent |

## What is trusted

The calls into other crates and into parts of `std` that have no specification
stand behind small functions with a contract of their own: HMAC-SHA-256 tags and
hexadecimal text in `auth`, JSON strings in `json`, lower case in `discovery`,
the time in `clock`, and `String::push` in `text`.
