# scripture_ops

The operational side of Scripture, a durable streaming system over object storage,
as a verified library: what a producer spools and replays, who may write a Verse, how
a Scribe starts and what it answers, and how the command line and its tools read their
words. `src/` is written in Verus; every public function states what it returns.

| Part | Modules |
| --- | --- |
| Producer spool | `frame`, `frame_laws`, `storage`, `file`, `continuity`, `cell`, `id_map`, `model`, `buffers`, `ids` |
| Serving Authority | `authority`, `crd` |
| Configuration and safety | `config`, `policy`, `capability`, `preflight`, `doctor`, `directory` |
| Processes | `args`, `commands`, `lifecycle`, `serving`, `scribe`, `activation`, `http`, `admin_http`, `campaign` |
| Consumers, labs, load, wire | `consume`, `consume_lab`, `produce_lab`, `load`, `connection`, `wire` |
| Text and numbers | `text`, `numbers` |

Public proof functions named `law_..` state what holds across several functions.
Functions marked `external_body`, and the items beside them, state what the library
believes of outside crates; each names the outside function.

`app/` holds the programs around the library: listeners, files, the Kubernetes client
and the report figures that are floating-point numbers. The journal itself (log, store,
record codecs) is reached through `app/runtime.rs`; a build without a journal runtime
refuses the commands that need one.
