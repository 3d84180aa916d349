# maa_run

Connection probing and task running for MaaCore, verified with Verus.

`src/` decides: which window a configuration means, whether a screenshot shows anything, what a
probe reports, where a profile is looked for, and which step of a run, a connection test or a
connection comes next. Every decision has a contract, and what holds of whole runs is proved in
functions named `law_*`.

| module | what it decides |
| --- | --- |
| `args`, `config`, `platform` | what was asked for, what is configured, where it runs |
| `screenshot` | what a screenshot shows |
| `double`, `rounding`, `decimal` | double precision by integers, how far it is off, how it is written |
| `payload`, `json`, `text` | what is reported, and how it is written |
| `path`, `window`, `connect` | which window is meant, and how a connection comes to stand |
| `profile`, `maacore` | which profile is read, and how MaaCore is loaded and set up |
| `probe`, `run` | the steps of a connection test and of a run |

`app/` carries the steps out: it makes the calls, hands what came of them back, and prints.
MaaCore's bindings, the directories, the configuration files and the installer come in through the
traits in `app/host.rs`.

What is believed without proof is marked `external_body`, in `json`, `screenshot` and `text`: the
calls into `serde_json` and `image`, and two into the standard library.
