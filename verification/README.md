# gpt2omo

A local bridge that hands coding tasks to ChatGPT Web workers. Every worker has a scope: a
workspace, a browser page and an account. The bridge routes fresh work over the configured
accounts, keeps the pages of workers that ended for follow-up tasks, and serves the tools by
which a worker reads and changes its workspace.

The rules of the bridge are a library in `src/`, verified with Verus. What touches the disk,
the network or a browser is ordinary Rust in `app/`.

## The library

| Modules | What they decide |
| --- | --- |
| `accounts`, `account_state`, `router`, `workers` | which account takes work, and when |
| `account_diagnostics`, `onboarding` | what is shown of the accounts, and how new ones go live |
| `security`, `paths` | which paths a worker may reach, and what a scope is |
| `orca`, `browser_pool` | how pages are opened, read, written to and closed |
| `delegate` | how a request is staged, made ready, dispatched, observed and ended |
| `fresh_dispatch` | who owns a piece of fresh work |
| `server`, `events`, `relay` | the protocol of the bridge, its events, and who follows them |
| `telemetry` | the rows of the log and its size |
| `mass_ulw_web`, `install`, `cli`, `dotenv` | invocations, installed commands and settings |
| `json`, `text`, `arith`, `sort`, `shelf`, `task_state`, `error`, `outside` | what the rest is built from |

Work that waits on the outside is written as a step function: it takes what has been seen so
far and returns what is done next. A caller performs the step, notes what came of it and asks
again. The contract of a step function says exactly which step follows from what was seen, and
public proof functions state what holds of the whole run.

`outside` holds the calls into other crates. Their contracts are taken on trust.

## The programs

`app/` has the installer, the onboarding and status commands and the relay. The delegation
command (`app/delegate.rs`) and the server (`app/server.rs`) are generic over the store of the
task records and the tools behind them (`TaskRecords`, `ToolHarness`), which an embedding
program supplies.
