# minotari_multisig

Spending an output that several parties own, for the console wallet of Tari.

A multisig output is locked by a script that asks for signatures by some of the script keys of its parties. To spend it,
the parties open a session: the leader writes down what is to be spent and to whom, each party makes its keys and signs
the commitment, the leader starts a transaction with the sums of all shares, each party signs that, and the leader
completes it.

- `src/` is the library. Each flow is a chain of stages: a stage says what the wallet is asked for, and takes the reply.
  - `session`: making a multisig output, opening a session
  - `party`: a party's keys and signatures
  - `collect`, `encumber`: what the parties gave, and the transaction that is started with it
  - `challenge`, `sign`: a party's signatures over the transaction
  - `send`: completing the transaction
  - `io`: the files of a session
  - `script`, `utxo`, `weight`, `crypto`, `keys`, `key_map`, `hex`, `text`, `list`, `types`, `error`: what the flows are
    made of
- `Cargo.toml` holds crates of the Tari core to one version, also some that the library does not name itself: the ones
  that it names ask for them by a range, in which newer ones do not fit.
- `tests/` runs the library with the crates that it calls.
- `app/` runs the flows with the services of the wallet, and reads and writes the files.
