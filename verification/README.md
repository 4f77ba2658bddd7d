# starknet_live

Live ingestion of pre-confirmed Starknet data.

A Starknet node pushes transactions, receipts and events over websocket subscriptions
before the block that holds them is accepted. The library decides what to subscribe to,
what each notification says, and which pending block the notifications seen so far amount
to. Its code is verified with Verus.

- `src/provider`: the node's messages. `subscribe` writes requests, `ws` and
  `notification` read notifications, `json` and `digits` read values, `models` holds them.
- `src/live`: the assembler. `model` says what it holds and what each operation makes of
  it, `assembler` does it, `laws` states what holds across operations, `block` puts pending
  blocks together, `order` and `table` hold what they share.
- `app`: websocket connections, and the ingestion that turns planned blocks into fragments.
- `tests`: the library, run.

Calls into `serde_json`, `hex` and `starknet-rust` stand in small functions whose contracts
are believed; each says what it claims of the call.
