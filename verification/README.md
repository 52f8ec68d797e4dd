# ton_sdk

A Verus library for working with TON smart contracts. It reads and writes account addresses, makes
contract images and changes their initial data, and builds, signs and reads the messages that
deploy and call contracts.

- `src/` is the verified library.
  - `address`, `bits`: addresses, their text forms, and strings of bits
  - `codec`, `sextets`, `checksum`: hexadecimal and decimal text, base64, and the checksum
  - `cell`, `message`: trees of cells and messages as plain data
  - `image`: contract images
  - `contract`: contracts and the messages to them
  - `error`, `json`, `settings`: errors, JSON text, and the default workchain
  - `laws`: what holds between the functions
- `tests/` runs the library.
- `app/` is a client over a node. It is generic in the implementation of cells and virtual machine,
  of the ABI, and of the connection to the node.

Functions of the library that need cells to be serialized, a call to be encoded or a contract to be
run take the function that does so as an argument. Their contracts say which of its results lead to
which result, for every such function. What is trusted stands in `codec`, `sextets`, `checksum`,
`json`, `image`, `cell`, `contract` and `error`, each item with a comment that says what is believed
of it.
