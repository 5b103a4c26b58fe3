# quote_sidecar

A sidecar that serves dstack TEE attestation endpoints and, at startup, can
persist the CVM identity as a Fluent Bit `@SET` fragment for a log shipper.

- `src/` is the verified library (Verus):
  - `settings`: the configuration (defaults, overridden by variables named
    `QUOTE_SIDECAR_<SECTION>__<KEY>` and resolved by the `config` crate; the
    `instance_file` section has `enabled`, `path`, `required`, `retries` and
    `retry_delay_ms`) and the bind address;
  - `fragment`: rendering the identity as `@SET KEY=value` lines, refusing
    values that hold a newline;
  - `paths`: where the fragment is staged before it is renamed into place;
  - `startup`: the startup sequence as a state machine (query the guest agent
    with retries, render, write atomically, then serve; a failure stops
    startup when the file is required and is only reported otherwise), with
    its laws;
  - `layers`: calls into the `config` crate, with what they do stated over
    names for what the builder, the environment source and the built
    configuration hold;
  - `text`: string helpers.
- `app/` is the program: it reads the environment, performs the actions that
  the startup sequence asks for (guest agent queries, sleeps, file system
  calls) and runs the HTTP server.
- `tests/` exercises the library on concrete values.
