# Bitcoin coordinator

A coordinator takes signed Bitcoin transactions, brings each one to the node once its target height
is reached, follows it until it is final, and speeds it up on the way: it pays for stuck parents with
children (CPFP) and outbids its own children with replacements (RBF). What the operator has to know is
told as news that comes back until it is acknowledged.

- `src/` is the library, written in Verus: records and their states, the store, fees, the funding queue,
  the dispatcher, and the two engines that decide what a tick does. The node, the chain monitor and
  the signer are not in it. A function of an engine takes what they answered as plain values and
  returns what they should do next.
  - `types`, `primitives`, `settings`, `config`, `errors`, `text`: the data.
  - `model`, `lifecycle`, `speedup_model`: what the operations mean, over mathematical views.
  - `storage`, `fee`, `funding`, `dispatcher`, `helper`: the parts.
  - `engine_context`, `transaction_engine`, `speedup_engine`, `speedup_builder`, `coordinator`: the engines
    and the interface.
  - `laws`, `funding_laws`, `dispatch_laws`, `cascade_laws`: properties that span several operations.
- `app/` is the program around it: configuration, the node, the monitor, the signer, the saved store
  and the loop that carries out each step of a tick.
- `tests/` runs the library, most of it against a node in memory.

What is taken on trust is in `primitives` (the id and the weight of a transaction, from the `bitcoin`
crate) and in `helper` (the clock).
