# skw

Shared plumbing of the `skw` services, verified with Verus.

- `src/` is the library: the configuration document read from the text of its file, its
  JSON Pointer reads and writes, and the overrides that environment variables make to it
  (`json`, `config`), the names of streams, topics, consumers and queues (`lib.rs`),
  topic settings and the RPC consumer's decisions (`iggy_client`), task settlement and
  publish confirmation (`rabbitmq`), pool settings (`postgres`), HTTP answers and internal
  request bodies (`jsonrpc`), migration actions (`migrations`), and the typestate clients.
- `app/` runs the services: it reads the configuration file's text and the environment, connects
  to Iggy, RabbitMQ, Redis and PostgreSQL, and runs the consumer loops, asking the library
  at each decision. `app/prelude.rs` groups what a service uses most, the library's items
  with those of the crates the services are built on.
- `tests/` exercises the library on concrete values.
