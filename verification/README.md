# cqlib-tianyan

A client library for the Tianyan quantum cloud platform, written in Verus.

`src/` holds the platform's rules with their contracts, proved by Verus:

- `config` – endpoint paths, the platform domain, the credentials file location
  in the Unix and Windows layouts;
- `auth` – token lifetime, the login form, login answers, stored credentials;
- `client` – the response envelope, authorization headers, and what follows
  each reply (re-login on 401, `Retry-After` on 429, exponential backoff on
  5xx and network errors);
- `device` – device status, pricing and technology, device-list records,
  backend selection, circuits given for submission;
- `device_config` – qubit and coupler names, disabled qubits, the qubit
  layout, native gates, calibration arrays and calibration times;
- `task` – submission checks, batches of at most 50 circuits, calibration
  modes and fetch plans, the polling schedule;
- `results` – task ids of result records, the per-shot measurement table
  turned into exact outcome counts, and results put back into the order the
  circuits were submitted;
- `error`, `ffi`, `text` – error texts, the C interface's error slot and
  argument messages, and verified text helpers.

`app/` is the blocking HTTP client, credential files, result assembly and
readout error mitigation (floating point) with `cqlib-core`, and the C
interface, all driven by the library's decisions.

`tests/` exercises the library on concrete values.

`Cargo.toml` pins `url` at `2.5.2` although no file here names it: it is a
dependency of `reqwest`, held at the last release before `url` moved to
`idna` 1.x and the ICU crates that come with it, which keeps the dependency
tree small.
