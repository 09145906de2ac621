# fssh

A small SSH client that opens a shell with a password login. It speaks
`curve25519-sha256` with `ssh-ed25519` host keys, and encrypts with
`chacha20-poly1305@openssh.com`, `aes256-gcm@openssh.com` or
`aes128-gcm@openssh.com`.

- `src/` is the protocol as a library, verified with Verus: wire encoding,
  packets and their encryption, algorithm negotiation, key exchange and the
  conversation with the server.
- `src/primitives.rs` holds the calls into the crates that supply the
  cryptography and the random numbers. Their contracts are assumed, everything
  else is proved from them.
- `app/` is the program: arguments, socket, terminal and password prompt.
- `tests/` runs the library on concrete values, with the real primitives.

The functions named `law_...` state what holds of several functions together,
such as that reading a stream gives back the payloads that were sealed, or that
a cipher excluded with `--not-algs` is never chosen from the client's own list.
A list given with `--algs` is offered as it is, whatever is excluded.
