# ashlogin

A small SSH login helper: pick a server from a TOML file and hand off to the
system `ssh` (through `sshpass -e` when the entry has a password).

The library under `src/` holds the logic, with contracts checked by Verus:

- `config`: server entries, validation (first problem in file order, names and
  aliases unique once trimmed and lowercased), lookup by name or alias, the
  picker line, the `ssh`/`sshpass` invocation and its shell-quoted preview,
  and the order in which the configuration file is looked for.
- `paths`: paths as the bytes the operating system gives, their display,
  `~` expansion and the well-known files under the home directory.
- `accounts`, `ui`: the configuration screen, a list of accounts and a form
  that adds one, as a state machine driven by keys and pasted text.
- `ssh`, `session`: the decisions taken between the outside steps of a login
  (keychain or key file, host key trust, `ssh-keyscan` results, the
  interactive session's reads, writes, end of input and exit status).
- `text`, `error`: trimming, lowercasing, decimal rendering, joining; errors
  and their messages.

`app/` is the command-line program around it: argument parsing, the file
system, processes, terminal drawing, the keychain and the network.
