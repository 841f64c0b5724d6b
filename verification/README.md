# iroh_ex

An Erlang NIF module for Elixir that runs Iroh networking nodes: gossip
topics joined through tickets, content-addressed blobs, multi-writer docs,
and a table of Automerge CRDT documents.

The logic is a Verus library (`src/`), proved against its contracts:

- `registry`, `registry/doc_ops`: the document table and every operation on
  a document (maps, lists, text, counters, save/load, fork, merge, sync),
  stated over a model of what each document holds (`doc_model`), the
  changes it has committed and the actor it writes as. A merge's contents
  are those its combined changes materialise (`am_state`); a text splice is
  exact on text whose characters are elements of their own.
- `automerge_bridge`: the calls into Automerge, each with the contract the
  library relies on. Calls that read counters require that the document's
  counter sums fit in `i64`, since Automerge adds them with `+`.
- `navigate`, `reply`, `nif_error`: paths into a document, what a read hands
  back, and the exact error texts.
- `payload`, `gossip_events`, `topics`, `actor`: events for the host, how
  gossip occurrences are routed, and the per-topic peer bookkeeping.
- `node_config`, `ticket_text`, `bytes`, `hex_text`: relay choice and
  membership sizing, the ticket text form, topic ids and key text.
- `doc_laws`: what the document operations promise across calls.

`tests/` exercises the library with the real outside crates linked. `app/`
holds the NIF shells: terms in and out, the async runtime, the network
stacks, and the few values (floats) that the library does not carry.
