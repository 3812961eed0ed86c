# rpictl-mcp

Operates Raspberry Pi boards that are connected to a host by a serial console and a switchable
power supply, for callers of the Model Context Protocol and for people at a terminal.

`src/` is the library. It holds everything that is decided: the configuration and its validation,
the record of serial input, the detection of a board's state, the lease of a board, the dialogues
with a power controller, the operations, the requests of the tools and the console protocol. Each
function states what it returns, and Verus proves it. But for random identifiers, nothing in the
library comes from a clock, a device, a socket or another program: an operation is a program of
steps that asks for one action at a time and is handed the event that came of it.

| Module | What it is about |
|---|---|
| `config` | board profiles and their validation |
| `error` | errors with stable codes |
| `serial` | the bounded record of serial input |
| `state` | board states and their detection |
| `observation` | what a board's console shows |
| `lease` | the exclusive lease of a board |
| `registry` | the configured boards |
| `policy` | which commands may be put on a console |
| `power` | dialogues with a power controller |
| `procedure` | how operations are run, step by step |
| `operations` | what each operation consists of |
| `execution` | an operation from its wait for the lease to its result |
| `mcp` | the requests of the tools |
| `console` | console sessions and power requests, at both ends |
| `protocol` | what holds of the console protocol as a whole |
| `doctor` | the report on a configuration |
| `text` | texts and their encoding |

`app/` is the program around it: the MCP server, the console socket, the serial devices, the
commands run on the host, and the clients at the terminal.
