# sevria_macros

The macros of the Sevria service stack, as a library of verified functions from
tokens to tokens.

| Macro | Put on | Function |
|---|---|---|
| `#[endpoint(...)]` | an async handler function | `endpoint`, `try_endpoint` |
| `#[router]` | an `impl` block of handler methods | `router`, `try_router` |
| `#[derive(Schema)]` | a request or response struct | `schema`, `try_schema` |
| `#[response(...)]` | a response type alias | `response` |

The `try_` functions give `None` on the few uses that have no expansion: an HTTP
method that is no identifier, and a struct whose fields have no names.

## Layout

- `src/tokens.rs`: token streams as sequences of token trees, and how they are built.
- `src/error.rs`, `src/text.rs`: errors and the code that reports them; text.
- `src/syntax.rs`, `src/items.rs`: what is read of types, expressions, attributes and items.
- `src/input.rs`: reading arguments token by token.
- `src/args.rs`, `src/status.rs`, `src/response_attr.rs`, `src/fields.rs`: the arguments of
  the macros and the attributes of fields.
- `src/json.rs`, `src/request.rs`: JSON schemas, and reading a request out of HTTP.
- `src/endpoint.rs`, `src/router.rs`, `src/schema.rs`, `src/response.rs`: the four expansions.
- `src/laws.rs`, `src/order.rs`: what holds of the expansions as a whole, and of the order
  of the macros' arguments.
- `app/`: the `proc-macro` crate that hands the compiler's tokens to the library.

Lexing, printing and parsing Rust are left to `proc_macro2` and `syn`. What their results
are is named where it is not stated; every such item says what is taken on trust. Source
locations are carried along. The functions that read arguments and attributes say where a
complaint is reported, unless the parser or the compiler chooses the place; no contract
speaks of where generated code stands.
