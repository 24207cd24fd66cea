# Z.AI coding plan proxy

A proxy that offers the models of the Z.AI coding plan under the APIs of OpenAI
(`POST /v1/chat/completions`, `GET /v1/models`) and Anthropic
(`POST /api/anthropic/v1/messages`). It lets in clients with a key or a signed
login token, counts the tokens that each user has used and has bought, and
rewrites the names of the models on the way.

The rules of the proxy are a library in Verus: the functions in `src/` have
contracts that say what they return, and Verus proves all of them but those of
the wrappers round calls of other crates and of the standard library, which are
taken on trust (see below). Two things no contract says: when OpenSSL fails over
a key or a signature and in what words, and what time the clock shows. Where the
answer depends on them, as it does for a login token, the contract says what is
done with each outcome.

The program round the library, in `app/`, is not verified. It does what a library
cannot: it reads and writes files and connections, runs `curl`, and turns JSON
text into the records that it keeps.

## Layout

| | |
|---|---|
| `src/text.rs`, `number.rs`, `bytes.rs`, `percent.rs`, `encoding.rs`, `pairs.rs` | text, numbers and encodings |
| `src/json.rs`, `codec.rs`, `json_field.rs`, `plain.rs` | JSON values, JSON text, fields of JSON text that is not read as a whole, and JSON text put together by hand |
| `src/request.rs`, `http.rs`, `route.rs`, `failure.rs` | HTTP: requests, heads, routes, failures |
| `src/config.rs`, `clock.rs`, `files.rs` | settings, the time, the names of files |
| `src/auth.rs`, `login.rs` | who asks |
| `src/usage.rs`, `accounts.rs`, `grants.rs`, `quota.rs`, `report.rs` | tokens that are used, bought, left and reported |
| `src/models.rs`, `chat.rs`, `upstream.rs` | models, and the way there and back |
| `src/anthropic.rs`, `completion.rs`, `sse.rs`, `ids.rs` | messages and chat completions, turned into each other |
| `app/` | the program |
| `tests/` | tests of the library |

Functions whose names begin with `law_` state what holds of several functions
together: that an order is granted once, that a request for a model that is not
listed is refused, that a body in chunks is read as it was sent.

What the library takes on trust is marked `external_body` or
`assume_specification`, each with a comment that says what is claimed of which
function: of `serde_json` for JSON text, of `base64` and `openssl` for login
tokens, and of a few functions of the standard library.

## Settings

Environment variables: `ZAI_API_KEY` (required), `ZAI_CODING_PLAN_ENDPOINT`
(`global` or `cn`), `PROXY_API_KEY`, `INTERNAL_API_KEY`, `HOST`, `PORT`,
`ALLOW_ANONYMOUS`, `FREE_LOGIN_TOTAL_TOKENS`, `FREE_USAGE_STORE_PATH`,
`PAID_USAGE_STORE_PATH`, `PAID_BALANCE_STORE_PATH`, `PAID_GRANT_STORE_PATH`,
`USER_EMAILS_STORE_PATH`, and `AUTH_CALLBACK_PUBLIC_KEY_PATH`, the PEM file with
the key that login tokens are signed with.
