# paperticker

A paper portfolio: a daemon that keeps a ledger of simulated trades and caches
daily closes, a terminal client and a command line client. No real money, no
real trades.

The logic is a library, verified with Verus:

| Module | What it settles |
| ------ | --------------- |
| `text`, `format`, `number` | texts, columns, and how numbers compare |
| `secret` | keys that are never printed |
| `provider`, `sources`, `config` | which provider is selected, with what key, and where that is kept |
| `proto`, `framing` | the messages, and the lines they travel on |
| `alphavantage`, `throttle` | what is asked of the provider, how often, and what its answers mean |
| `bands`, `portfolio` | Bollinger bands, positions, summaries and histories |
| `server` | what the daemon does with a request, step by step |
| `socket`, `startup` | where the daemon listens, and whether it may |
| `dates`, `worker`, `app`, `view` | the terminal client: its state and what is on its screen |
| `cli`, `provider_cmd` | the command line client |

A number is held as the bits of a double. How two of them compare is decided on
the bits; arithmetic, and numbers in writing, come from whoever implements
`number::Numerics`. Contracts speak of the outcomes of its operations.

`app/` is the program around the library: the socket, SQLite, HTTP, the terminal
and the credentials file. It takes the steps that the library asks for and hands
back what came of them.
