# deposit_graph

A relay service for the DepositGraph contract on Ethereum Sepolia and Optimism Sepolia.
Clients sign up, deposit, request withdrawals, read their shares and publish share blobs
over an HTTP API; a listener per chain scans new blocks for contract events, pays out
requested withdrawals and writes a JSON record of every event.

- `src/` is the library, verified with Verus:
  - `text`: decimal and hex rendering, substring search.
  - `eth`: 256-bit integers, addresses and hashes as plain data, with the arithmetic,
    renderings and parsing that ethers provides for them.
  - `config`: the served chains and the settings read from the environment.
  - `registry`: the contract of each chain and the ids of handled events.
  - `api`: what each HTTP request asks of the contract and what the client is answered.
  - `events`: event records, their ids, file names, and moving saved files.
  - `listener`: the block ranges a chain listener scans and the order events are handled in.
  - `withdrawal`: the payout transfer of a withdrawal request and its outcome.
  - `contracts`: the set-up of every chain's contract.
  - `envfile`: `.env` parsing and masking of secret values.
- `app/` is the program: the HTTP server, the contract binding, the RPC calls, file and
  environment I/O.
- `tests/` exercises the library on concrete values.
