# Vine

A Minecraft proxy whose decisions are proved. The library (`src/`) holds the rules of the proxy
as Verus code: every function states in `requires` and `ensures` what it does, and Verus checks
it. The program (`app/`) is ordinary Rust: it owns sockets, files, clocks and plugins, performs
what the library asks for, and hands back what came of it.

## Layout

| Module | What it decides |
| --- | --- |
| `config`, `permissions` | configuration and its defaults; who may do what |
| `network` | the PROXY protocol, socket options, bytes that were read ahead |
| `security` | names and hosts that are safe; how much a client may send |
| `client` | handshake, status, and login with encryption and session service |
| `auth`, `crypto` | keys, hashes, identifiers, profiles |
| `backend` | routing, forwarding of player data, login at a backend, a player's stay from server to server, the packets in between |
| `command` | the console's and the players' commands, and their completion |
| `plugin` | events on their way through plugins, registrations, what plugins may ask for |
| `session` | the register of players |
| `status`, `bedrock` | answers to the server lists of both editions |
| `proxy` | how the parts are put together, and who is let in |
| `codec`, `text`, `ordering`, `table` | the packet format, texts, sorting, and maps by name |

Conversations with the outside are machines: a function takes a state and an event and gives the
next state and what to do. Their contracts are equations over spec functions (`bridge_step`,
`login_step`, `merged`, ...), and the public proof functions named `law_...` state what holds of
every run.

## What is trusted

Calls into other crates and into parts of `std` stand in small functions marked
`#[verifier::external_body]`, most of them in `crypto.rs`. Each has a doc comment that names the
function it calls and says what is believed of it.
