# tailcall

The verified core of a GraphQL gateway's configuration tooling:

- `lint`: the `@lint` directive, which checks (and optionally fixes) the
  letter case of type, field, enum and enum value names, gathering every
  message in name order.
- `blueprint`: field definitions and the operator that puts a cache in
  front of a field's resolver.
- `json`: JSON values in the shape of `serde_json_borrow`'s borrowed value,
  with lookups by key and by path.
- `cli`: the decisions of the command line: the `init` dialog as a state
  machine, what `check` does after validating, and what is shown.
- `strmap`, `text`, `valid`, `config`, `case`: name-ordered maps and sets,
  the order of names, validation errors, the configuration model, and the
  letter cases computed by `convert_case`.

`app/` drives the `init` dialog on the terminal and the file system, holds
the serde-facing copy of the lint settings, and converts borrowed JSON
values into the library's values.

Names are kept in `StrMap`/`StrSet`, sorted vectors with a verified
invariant, rather than in `BTreeMap<String, _>`/`BTreeSet<String>`: with
`String` keys the standard library's ordered map gives the proofs nothing to
go on, while the sorted vector carries the order of names as an invariant
that every operation is proved to keep. JSON objects are the library's own
`JsonObject`, in the shape of `serde_json_borrow`'s `ObjectAsVec`, because the
lookups and paths read what the values hold; `app/` converts between the two.
