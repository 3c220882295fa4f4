# champ_node

The rules of a node of the POG block lattice, with their contracts proved by
Verus.

## Layout

- `src/` — the library, verified:
  - `api` — identifiers, blocks, transactions and accounts, with their views;
  - `validation::block` — the checks a block passes before it is accepted;
  - `storage` — the backend configuration and errors, the `Database`
    interface, the in-memory store (`mock`), the sled store (`sled`: its key
    layout, the writes that store a block, what reading them back gives,
    and the searches over its blocks and transactions), the rows of the SQL store
    (`sql`), and the RocksDB and Scylla stubs;
  - `wallets` — wallet bookkeeping (names, locking, unlocking);
  - `blockpool` — the queue of accepted blocks and the votes on them, as a
    state machine;
  - `consensus::voting_power` — which blocks voting power is computed from
    and how powers combine;
  - `auth`, `interceptors` — token checks and permissions;
  - `rpc` — what the account, lattice, admin, user and greeting services
    answer;
  - `p2p` — the framing of the request-response protocol, how a request is
    answered, how peers count as connected;
  - `config`, `env`, `cli`, `http`, `metrics` — settings, environment,
    command line and the small services.
- `tests/` — tests of the library.
- `app/` — the program: command line, configuration file, wallet files,
  environment, and the floating-point voting-power curves.
