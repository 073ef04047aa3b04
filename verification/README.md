# zeroclaw core

The verified core of an agent runtime: what it makes of the outputs of a procedure's steps, and how
it talks to servers of the Model Context Protocol (MCP).

- `src/` is the library. Verus proves the contracts of its functions; the proof functions whose names
  begin with `law_` state what holds across functions. The contracts of the small functions that call
  an outside crate or the standard library, marked `external_body` or `assume_specification`, are
  taken on trust; each says what it claims of the call.
- `app/` runs the library: it starts processes, sends HTTP requests, reads streams and clocks, and
  turns JSON into messages.
- `tests/` runs the library on concrete values.

## Modules

| module | what it holds |
| --- | --- |
| `text` | strings as sequences of characters |
| `json`, `url`, `http`, `tls` | what is used of `serde_json`, `url`, `http` and `reqwest`, with the contracts that are taken on trust, and the rules built on it |
| `step_output`, `rundata` | JSON recovered from the text of a step; the outputs of a run and the paths into them |
| `protocol`, `config`, `failure`, `timeouts` | messages, configuration, failures and time limits |
| `sse_text`, `sse_stream`, `response` | server-sent events, in one piece or line by line, and the responses in them |
| `endpoint`, `sse_shared` | where messages are posted, and who waits for which response |
| `stdio_transport`, `http_transport`, `sse_transport`, `sse_exchange`, `transport` | the transports: each decides, step by step, what to do about what has arrived |

The transports do no input or output. A transport says what to do next (send this request, read the
reply, report this outcome), and is handed what came of it.
