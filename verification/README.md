# passwords

A terminal password vault. The vault file holds the SHA-512 digest of the master
password, the number of entries, the entry names and entry lengths (encrypted with the
base IV), and then every entry encrypted on its own with an IV derived from the base IV
by repeated hashing.

`src/` is the verified library:

- `navigation` — the selected entry / field and how the arrow keys move them (with the
  laws that moves undo each other and wrap around).
- `browser` — decoding key bytes, the browser state and its invariant, what each key does,
  and what choosing a row does.
- `screen` — the exact bytes of the browser screen, with a window of the entry list that
  always holds the selected row.
- `vault` — entries, clipboard rules, the vault and its entry section (with the law that
  the entry section reads back as written).
- `digest` — reading digests out of the hex the digest commands print, the key-derivation
  block, and the IV chain.
- `commands` — the line commands of the plain menus.
- `hidden_input` — typing a secret without echo.
- `text` — decimal numbers and trimming.

`app/` runs the program: terminal I/O, the external commands, the binary encoding and the
AES streams of the `abes_nice_things` crate.
