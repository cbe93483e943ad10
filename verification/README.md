# linuxdo-accelerator

The logic of a local accelerator for `linux.do`, as a library that is verified
with [Verus](https://github.com/verus-lang/verus), and the ordinary Rust around
it.

The accelerator listens on a loopback address, ends the TLS of the browser with
a certificate of its own, and forwards each request to the upstream with
Encrypted Client Hello (ECH). It finds the addresses and the ECH configuration
of the upstream with DNS over HTTPS.

## The library, in `src/`

Every function states in its contract what it returns or changes, over a model
of plain sequences and maps. Whatever waits for somebody else (a server, a file,
a process) is a function from what is known so far to what is done next.

| Module | What it is about |
| --- | --- |
| `text`, `radix64`, `net` | text, base64, network addresses |
| `dns`, `https_rr` | DNS messages, HTTPS records and the ECH configuration in them |
| `cache` | tables, and tables whose values expire |
| `doh`, `resolver` | which server is asked what, and what comes of the answers |
| `proxy`, `upstream` | how a request is answered or forwarded, and by which connection |
| `certs` | the certificates: when new ones are due, what they say, their forms |
| `paths`, `config`, `state` | files, configuration, the state of the service |
| `plan`, `service` | the commands as plans, step by step |
| `hosts`, `process`, `watchdog` | undoing changes to the hosts file, ending and finding the service, watching over the user interface |
| `helper_ipc` | the messages of the privileged helper |
| `record_laws`, `service_laws` | what holds between several functions |

What holds of several calls or of every state is stated in public proof
functions, at the end of the module that it is about or in one of the last two
modules.

Calls into other crates stand in small functions marked `external_body`. The
comment above each names the call and says what is believed of it.

## The rest

- `app/` holds the sockets, the files, the processes and the serialised forms of
  what goes over them. What differs between systems comes through the traits of
  `app/system.rs`.
- `tests/` runs the library on concrete values, with the real crates behind it.
