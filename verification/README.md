# aegis-ai-runtime

A sandbox runtime for agent scripts, verified with Verus.

- `src/` is the verified library: capabilities and grant sets, tool policies
  and their allowlists, the sandbox (which host functions a script gets, the
  policy check each makes, its key-value store), the execution life cycle, the
  JSON-RPC server's admission and dispatch decisions, URL hosts and the
  HTTP tools' domain check.
- `app/` is the program around it: YAML and JSON parsing, the Rhai engine
  that runs scripts with the host functions and limits the library decides
  on, file and network I/O, and the command line.
