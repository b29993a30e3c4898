# maki_acp

Agent Client Protocol support for the maki coding agent, verified with Verus.

- `src/` is the library: the sessions of a connection and their modes, the course of a prompt
  turn, the replay of a stored history, the paged listing of sessions, what an integration harness
  does as a client, and the skeleton of Zig source. Every function states what it does in its
  contract; the public proof functions state what holds of the library as a whole.
- `app/` is the program around it: the harness as a command line client, the agent as a server
  over stdin and stdout, and the conversions between the library's types and those of the
  protocol and of tree-sitter.
- `tests/` runs the library.

What is believed without proof is little: `String::push`, the `Debug` format of a string, the
timestamps of jiff and the random ids of uuid. Each says in its doc comment what it claims.
