# mapcopy

A deployment copier. It reads `key: value` settings printed by a setup script, reads
XML tree specifications that give every path of a configuration tree its owner, group
and mode (with defaults that directories hand down), scans the source tree, holds the
two against each other, and copies the trees into place with `chown`, `chmod`, `mkdir`
and `rsync`.

- `src/` is the library, each function proved against its contract: text and number
  handling, the path map, the command line, the setup output, the tree specification
  (parsed with `minidom`), the walk of the source tree and its comparison with the
  specification, and every shell command a run gives.
- `app/` is the `project_tree` program around it: it runs the commands, lists the
  directories the walk asks for, reads the files and the terminal, and prints.
- `tests/` holds tests of the library on concrete values.
