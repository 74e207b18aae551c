# score-messages

A Cockatiel module that scores chat messages by their context (punctuation, questions, length,
spam, missing spaces, missing words, emoji, posting too often) and applies the score to the user.

- `src/` is the library. Verus proves its functions against their contracts: which rules a
  message meets and what they add up to, how settings are read and saved, what an operator is
  asked, and what the engine is sent.
- `app/` is the process around it: the connection, the clock and the file `config.json`.
- `tests/` runs the library on examples.

The functions marked `#[verifier::external_body]`, and `assume_specification`, are not proved.
Each calls one function of `serde_json`, `uuid` or the standard library, and its comment says what
is taken for granted of it. They stand in `src/json.rs`, `src/text.rs` and `src/prompt.rs`.

Settings live in `config.json`, under `module_specific`, with one key for each rule's toggle and
score and one for the interval between two messages of a user.
