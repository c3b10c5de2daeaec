# vaughan_dioxus

The decision logic of the Vaughan desktop wallet, written in Verus and proved
against its contracts: what the Send form accepts and how replacement fees are
raised, the queue of sent transactions, the transaction history search and merge,
the dApp catalog and the fast-dApp lists, the approval broker that holds dApp
signing requests, the wallet's local JSON-RPC endpoint and IPC answers, the
order in which a dApp-browser connection and a signing request are handled
(state machines whose steps the program drives), and the forms guarded by the
password attempt limiter.

Layout:

- `src/` — the verified library, one module per concern (`send_form`, `pending`,
  `history`, `browser`, `dapp_lists`, `approval`, `rpc`, `ipc`, `forms`,
  `dashboard`, `app_state`, `session`, `flows`), with shared text, amount, 256-bit and hex
  helpers (`text`, `amounts`, `u256`, `hexcodec`, `urls`).
- `tests/` — tests run against the compiled library.
- `app/` — the unverified edge: process spawning, the clipboard, the blocking
  approval wait, the handshake wait, the loops that drive a connection and a
  signing request through the library's steps, and JSON copies of library types.

Calls into `url`, `hex` and `alloy` (256-bit integers) are made from the library
through small trusted wrappers whose contracts state what those crates document.
