# imhottep

An interactive HTTP client for the terminal, with its core verified by Verus.

- `src/` is the library: the requests and how they are kept, the keys and what
  they do, the checks before a request is sent, what comes in while it is on its
  way, the lines that are fed to jq, and what every screen shows. The contracts
  speak of the models beside each type, and the laws that hold of several
  functions stand in the module they are about.
- `tests/` runs the library with the crates it is linked to.
- `app/` is the program around it: the terminal, the network, the files, and the
  runs of jq and uv. It performs what the library asks for and hands back what
  happened.

What the library takes from other crates stands behind a few functions whose
contracts are believed, each with a comment that says what is claimed.
