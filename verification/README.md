# scalar_node

The verified core of a Scalar execution node: an Ethereum execution client that leaves the order of
transactions to an external consensus layer and executes the transactions of a block in parallel.

`src/` is the library. Verus verifies the functions in it against their contracts. A few small
functions are trusted instead: each makes one call of another crate or of the standard library, and
Verus believes its contract. They are marked `#[verifier::external_body]` and stand in `primitives`
(256-bit arithmetic), `fees` (base fee, blob gas and its price) and `debug` (debug output).

| module | what it holds |
| --- | --- |
| `primitives`, `env`, `transaction` | 256-bit integers, addresses, hashes, and the values that an EVM and a pool work on |
| `hardfork` | when a hardfork is active, and the hardforks of a chain |
| `fees` | the base fee and the blob gas of the next block |
| `config` | the rules at a block, and the EVM configuration of a block and of the next one |
| `mode`, `byte_set` | how the miner picks transactions: instantly, by interval, or as they are committed |
| `task`, `task_run` | the mining task step by step, and what holds of any run of it |
| `insertion` | the insertion of one block: executed, announced to the engine, committed |
| `consensus` | what the consensus layer is told, and how the parts of a node are put together |
| `parallel`, `attempt_run`, `context` | what the workers of a parallel execution do, what holds of all the attempts at a transaction, and the storage that the workers share |
| `block_output`, `block_executor` | receipts, requests and balance changes of a block |
| `seth` | launch arguments, the EVM configuration of the node and its executor builders |
| `debug` | debug output that leaves fields out |
| `cluster` | options and transaction plan of the tests against a running cluster |

`app/` is ordinary Rust around it: argument handling, streams and channels, worker threads, the state
database and the EVM itself.

`tests/` runs the library on concrete values.
