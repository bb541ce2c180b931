# weibo_pc

The core of a Weibo (weibo.com) desktop client, written in Verus: the
decisions the client makes on what the web API, the QR-login endpoints, the
push connection and the capturing proxy send back are executable functions
with contracts that Verus proves.

Where a result rests on chance or the clock, the contracts say what holds
whatever comes back and leave the rest open. The bot-detection data states
what is encrypted and how the blob is framed, but its key, IV and OAEP
padding are random, and the RSA blob is named (`oaep_encrypts`), not
computed. The certificate authority states how each certificate is
issued (`pem_certifies` of an `Issued`: what its parameters say, which key
it certifies, which key signed it and under which issuer certificate, keys
told apart by their PEM text), but the keys and signatures come from
`rcgen` and the dates from the clock, and whether signing succeeds is not
promised.

## Layout

- `src/` — the verified library.
  - `domain` — messages, conversations, timeline items, login phases.
  - `text`, `json` — character-level helpers and a JSON value model, read
    from and written to text by `serde_json`.
  - `http`, `proxy` — HTTP request/response parsing, request rewriting and
    the capture records of the proxy; `StrMap`, the name/value map used for
    header fields and cookie jars.
  - `ca` — the proxy's certificate authority (what each certificate says
    is proved; keys and signing by `rcgen`).
  - `qr`, `bot`, `terminal`, `webview` — the QR login: status decoding,
    session state, ticket exchange, cookie jar, bot-detection data.
  - `session`, `chat`, `bubble`, `audio` — the application and chat state
    machines and what the views show as text.
  - `timeline`, `cookies` — the home timeline, hot searches and the saved
    cookie file.
  - `ws` — the Bayeux protocol of the push connection.
- `tests/` — tests of the library.
- `app/` — the command-line program: network, files, TLS and sockets.

Calls into `serde_json`, `base64`, `url`, `aes`/`cbc`, `rsa`/`sha2`, `rand`, `rcgen` and
`time` are made from `src/` through functions marked
`#[verifier::external_body]`, each documented with what its contract claims.
