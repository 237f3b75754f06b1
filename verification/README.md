# beerus_core

The verified core of a Starknet light client.

- `src/` is the library, verified with Verus:
  - `felt`: field elements read from L1 (`Felt`), their decoding from
    big-endian words and their `0x` lowercase hexadecimal form;
  - `core_contract`: the call data of the core-contract getters and the
    decoding of the words they return;
  - `node`: the node data kept by the client and the block at which a
    request is answered;
  - `sync`: the L1 source (forward each newly proven state) and the L2
    verifier (report the proven state, then check the hash of each L2 block
    that follows) as state machines, with their laws;
  - `l2_client`: confirmed blocks and the paging of block events;
  - `storage_proof`: the parameters of a storage-proof request and the
    reading of its answer;
  - `error`: the errors of the core.
- `app/` holds the I/O around it: the helios L1 client, the L2 JSON-RPC
  client, the HTTP proof request and the tokio tasks that drive the state
  machines of `sync`.

The block hash that the L2 verifier compares with is computed by a function
that the driver is given (`BlockHasher` in `app/`): the hashing of Starknet
blocks is not part of this source.  The transaction executor of the API
crate (an `exec` entry point over blockifier, with a state proxy) is not
carried over: its input and error types are not part of this source, and all
its work is calls into blockifier, cairo-vm and starknet_api.
