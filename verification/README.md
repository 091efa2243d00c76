# firnflow

A vector database over object storage. Every namespace is a table of its own;
query results are cached on RAM and NVMe under a key that follows the table's
version, and near-duplicate queries can be answered from a small sidecar.

The library in `src/` holds the decisions: what a request may ask for, how rows
are laid out and read back, which table operation comes next, which cache answers
a query, who may call which endpoint, what an error says to a client, and how
benchmarks are configured and reported. Each function states what it does in its
`requires` and `ensures`, and Verus proves it. Functions named `law_...` state
what holds across several of them.

| modules | what they hold |
| --- | --- |
| `namespace`, `storage_root`, `vector`, `schema` | names, places, table schemas |
| `query`, `rows`, `batch`, `cursor`, `result` | requests, rows, columns, pages, results |
| `manager` | the steps of every operation on a table, and the pool of open tables |
| `cache`, `cachebackend`, `codec`, `hash`, `service` | caches, keys, and the path of a query through them |
| `metrics`, `family_ids`, `prom`, `operations`, `clock` | counters, background operations, time |
| `auth`, `routes`, `handlers`, `error`, `config` | the HTTP surface and its configuration |
| `bench`, `bench_report`, `report`, `calendar` | benchmark settings and reports |
| `text`, `shared` | strings and shared maps |

A step that touches storage is handed out as a value (`manager::Step`,
`service::QueryStep`) and its outcome is handed back, so that the library itself
does no I/O. Numbers in vectors are kept by their bits.

`app/` carries the steps out: the HTTP server on axum, tables on LanceDB, byte
stores on foyer, and the benchmarks, whose arithmetic on floating point stays
there.

`tests/` runs the library with the outside crates linked.
