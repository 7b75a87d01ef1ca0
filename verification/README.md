# prolock

A password manager that keeps named bundles of credentials (entries) and
free-text documents in one password-protected file.

## Layout

- `src/` — the verified library:
  - `data/` — the data model of a prolock file: keys compared without regard
    to ASCII case, bundles and documents kept in key order, the secrets and
    the references to them, the encryption of the secrets (by `pwsec`), the
    text of the storage file, the settings and the known files.
  - `ui/` — the decisions of the user interface: the controller that turns
    an action of the user into a change of the screen and the work to be
    done, and what the dialogs decide when they are confirmed.
  - `sequence.rs`, `secrets.rs`, `bundle.rs`, `controller.rs` — the first
    forms of the counter, the secret store, the bundle and the controller.
- `app/` — the program around it: command line, reading and writing files
  (with locking and serde), and a front end on the terminal that drives the
  controller.
- `tests/` — tests of the library.
