# cmx_mdm

Master data management: records of a dictionary (suppliers, customers, materials) are created and
changed through approved change requests, searched for duplicates, merged and un-merged, and sent
to the systems that subscribe to them.

`src/` is the library. Its functions are verified with Verus against the contracts they state, on
top of a few calls into other crates and the standard library whose contracts are taken for granted
(`outside`, the map in `distribution/registry`, `String::push` in `text`). It decides and computes;
it does not reach a database or a network. Where the work alternates between decisions and the
database, the workflow platform or a channel, the library offers a step function from a stage and
an event to the next stage and the next action.

| Module | What it holds |
| --- | --- |
| `activation`, `codegen`, `lifecycle` | from a change request to the rows of a record |
| `match_algo`, `match_laws`, `match_exact`, `survivorship` | blocking, comparison, clusters, surviving values |
| `merge`, `merge_parts`, `merge_record`, `unmerge` | merging records and giving back what was merged |
| `merge_notes`, `merge_effects`, `merge_taken`, `merge_trace`, `merge_undo` | what a merge notes and takes, and that its undo gives it back |
| `distribution`, `flow` | fan-out, delivery and its retries; the approval workflow |
| `store`, `sql` | the statements, and what is read from their rows |
| `handlers` | what each request asks for and how it is answered |
| `json`, `text`, `order` | values, texts and sorting, with their models |
| `outside` | calls into other crates: JSON text, hashes, hexadecimal digits, URLs, the clock |

Public proof functions named `law_...` state what holds across functions: that the record of a merge
lists exactly the lines of every victim, and of each victim its own; that the undo of a merge gives
every line back, under the column and in the state it was in, and that the undo of one of several
victims gives back what was that victim's and leaves the others merged; that a search finds exactly the doubles in its bucket, and
a scan exactly the clusters; that a round of fanning out makes every delivery that is owed and no
other, and that a repeat makes none; that the offset of a consumer never falls; that a secret
survives being shown and saved; that a delivery in parts leaves nothing out. Where a law speaks of
what statements make of stored rows, the rows are modelled beside it (`merge_effects`,
`store/fanout_laws`, `store/offset_laws`).

`app/` is the service around the library: routes, database, workflow client and channels.
`tests/` runs the library on concrete values.
