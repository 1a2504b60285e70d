# tuf

The client side of [The Update Framework (TUF)](https://theupdateframework.github.io/), with its
decisions verified by [Verus](https://github.com/verus-lang/verus).

- `src/` is the client without input and output. Its procedures (creating a client, updating the
  metadata, looking up a target) are sequences of steps; each step asks for one piece of work
  (fetch, verify, store) and is resumed with the reply. The contracts say exactly which step
  follows which. The modules `setup_run`, `update_run` and `lookup_run` write the procedures down
  as a whole and prove that the steps amount to them for every sequence of replies. The modules
  `update_laws`, `repeat_laws`, `lookup_laws` and `skip_laws` prove what holds of all of them, such
  as that only accepted metadata is stored, or that a repeated update changes nothing.
- `app/` runs the client on asynchronous repositories and a verifier of signatures.
- `tests/` runs it on repositories in memory.
