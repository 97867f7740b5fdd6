# tp_individual_2

A calculator served over TCP. Clients send operations on one shared byte
(`OP + 3`, `OP / 2`, ...) and finally ask for its value with `GET`.

- `src/` is the verified library:
  - `calculadora`: the calculator, its wrapping arithmetic, and the reading of an
    operation from text (words split on Unicode white space, a byte operand).
  - `texto`: the text primitives that reading rests on (white space, words, bytes
    in decimal) and their laws.
  - `io`: length-prefixed frames; what is read back is what was written.
  - `protocol`: line-terminated messages.
  - `servidor`: what the server answers to each message, and how the value changes.
  - `cliente`: the messages a client writes and what it reads from the answers.
  - `logger`: the lines of the log file.
- `app/` holds the programs (`server`, `servidor`, `client`, `cliente`): sockets,
  threads, the shared lock, the log file.
