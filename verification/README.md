# ClueBot

A trading-signal scanner: strategies watch market data, raise signals, and
notification channels (e-mail) deliver them; an agent layer asks an LLM to
analyse markets and signals.

The crate is split in two:

- `src/` is a Verus library. It holds the decisions of the system with their
  specifications: the runtime's lifecycle passes (start in registration
  order, stop in reverse, stop at the first failure), the engine's tables and
  state, the strategy's choice of coins and its per-coin scan, prompt
  templates and their rendering, the LLM gateway's routing, the OKX request
  URLs and reply checks, e-mail composition, and the text the agents send.
  Text operations (`replace`, `split`, decimal numerals, `i64` parsing) are
  written against exact specifications in `src/text.rs`.
- `app/` is the program around it: asynchronous traits and tasks, HTTP and
  SMTP, floating-point price arithmetic, and `main`.

`tests/` exercises the library on concrete values.
