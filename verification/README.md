# grat_core

A verified library for looking into Soroban transactions: it reads the specification
that a contract carries in its WebAssembly, turns JSON into contract values, reports on
each operation of a transaction, reads ledger headers out of history archives, and keeps
the list of transactions that were decoded last.

Every function of `src/` has a contract that Verus proves. The contracts speak of
mathematical models that stand beside the types; each model has the same shape as its
type, with sequences in place of strings and vectors.

## Layout

- `src/contract_spec/`: the entries of a specification (`types`), reading them out of
  XDR (`xdr`), finding the section that holds them (`wasm`), and what they say
  (`decoder`).
- `src/decode/`: contract values (`scval`) out of JSON (`json_to_scval`, with what holds
  of them in `conversion_laws`), integers in text (`number`), the parts of a transaction
  (`xdr`), which operation an event belongs to (`partition`), and the reports
  (`report`, `multi_op_decoder`).
- `src/archive/`: where checkpoints are kept (`path`), fetching them (`client`), the
  stream of records (`stream`) and the headers in it (`header`).
- `src/history.rs`: the list of decoded transactions.
- `src/json.rs`, `src/hex_text.rs`, `src/text.rs`, `src/error.rs`, `src/network.rs`:
  what the others share.
- `app/`: requests, files, and the types that other crates' traits are derived for.
- `tests/`: tests of the library with the crates that it calls.

## What is taken on trust

Decoding XDR, parsing WebAssembly, decompression, hexadecimal text and the checksummed
text of addresses are left to other crates. Each such call stands in one small function
marked `external_body`, whose comment says which function it calls and what is claimed of
it. What takes too long to state is named, and the contracts around it speak of the name.

Fetching a checkpoint is a conversation: `ArchiveClient::fetch_checkpoint` gives the first
request, and `CheckpointFetch::resume` takes its outcome and gives the next request or the
result. The caller makes the requests.
