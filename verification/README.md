# proxy

The connection settings with which the proxy reaches a compute node, and
the logic that fills them from a client's startup message, verified with
Verus.

- `src/startup.rs`: the parameters of a startup message and the splitting
  of their `options` value into command-line options.
- `src/compute.rs`: `ConnCfg` and what `set_startup_params` and
  `reuse_password` do to it, the options that are forwarded, the order in
  which hosts are tried, and `ConnectionError`.
- `src/option_laws.rs`, `src/config_laws.rs`: the laws proved of them.
- `src/text.rs`: string helpers.
- `app/lib.rs`: the TCP connection and the PostgreSQL handshake, with
  `tokio` and `tokio-postgres`.
