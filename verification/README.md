# cord_pallets

Verified core of the CORD runtime pieces:

- `mtype`: the MTYPE registry and its `anchor` call (origin, uniqueness and
  CID-encoding checks, storage and event), with `utils` for the base-32 and
  base-58 alphabets of stream CIDs.
- `weights`: the benchmarked weight functions of the utility pallet.
- `data`, `identity`: the identity data model — `Data` and its byte
  encoding, identity fields and their bit sets, identity information and
  usernames.
- `test_runtime`: the test runtime's accounts, identities, usernames and block
  advance.
- `primitives`: 32-byte hashes and account identifiers.

The laws of the library are the public proof functions named `law_*`.
