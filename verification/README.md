# federation_config

The configuration of a federation of servers: settings of the members, threshold keys, TLS
certificates, module configurations, the checks a member makes on its own configuration, and the
part that is handed to clients.

- `src/` is the library. Everything in it is verified with Verus; the calls into `hbbft`, `rcgen`,
  `hex`, `url` and `serde_json` stand behind small functions whose contracts are taken on trust and
  say so.
- `tests/` runs the library with these crates.
- `app/` keeps configurations in files, opens connections and drives the generation of keys between
  running members.

`src/laws.rs` collects what holds of a federation as a whole: that dealt and jointly generated
configurations pass the checks, that all members hold the same public keys and see the same
federation, that local services never share an address, and that a generation runs in order and
ends.
