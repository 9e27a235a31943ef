# lspi_lsp

A verified client of language servers. The library under `src/` decides; the crate under `app/`
performs what it decides, with tokio.

| module | what it decides |
| --- | --- |
| `client`, `documents` | whether a client may start; when a file is opened at the server and when a new version is sent |
| `preparation` | what holds of preparing files one after another |
| `retry` | how often a server is asked, how long to wait in between, and what its replies come to |
| `operations` | what can be asked about a file that the server knows |
| `symbols`, `locations` | which symbols are meant, which locations are reported |
| `positions`, `definitions`, `references` | what is at a position, what a name stands for |
| `calls` | one step up or down a call hierarchy |
| `workspace` | workspace symbols and diagnostics |
| `pyright`, `pathext` | where the Pyright language server is |
| `text`, `digest`, `delay`, `protocol` | blank text, digests, lengths of time, the values that travel |

An operation is a machine. `request` says what to ask; `resume` takes the reply and gives a
`Step`: how long to wait, and then either the machine that asks again or the result.

```text
prepare a file -> OpenedFile -> operation -> request -> reply -> resume -> ... -> result
```

Only preparing a file gives an `OpenedFile`, and every operation on a file uses one up. So, where
there is one client with one table of documents, its server is never asked about a file that it was
not told of, and a file is brought in step with the disk before each operation. The exception is a
rename of a file that the caller says was prepared. The requests that operations are made of, those
named `.._with_retry`, only borrow an `OpenedFile` and so may be repeated with one. An `OpenedFile` does not say which client
prepared it: with several, hand it to that one.

What is taken on trust: `str::trim`, `String::from_utf8` and cloning a `PathBuf` of the standard
library, `serde_json::Value::as_array` and cloning a JSON value, and `sha2::Sha256::digest`.

What a path is differs from system to system. `pyright` decides where a command is looked for and
in which order, and asks its caller what the system makes of a path.

`app/` speaks to a server through its trait `LanguageServer`.
