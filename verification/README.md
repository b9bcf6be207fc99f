# pinentry-fprint

A GPG pinentry that unlocks keys with a fingerprint sensor: gpg-agent asks
for a passphrase over the Assuan protocol; the passphrase is taken from the
system keyring (`secret-tool`) once fprintd has matched a finger, and
otherwise typed into a password dialog (QML, kdialog or zenity), optionally
kept in the keyring for next time.

## Layout

- `src/` is the library, verified with Verus:
  - `assuan.rs`: command parsing, percent-decoding, the escaped data lines
    and the other replies;
  - `session.rs`: the state of a pinentry session and the reply to each
    command;
  - `getpin.rs`: the passphrase request (keyring, fingerprint attempts,
    password dialog, storing) as state machines;
  - `fingerprint.rs`: the order of the D-Bus steps of a fprintd verification and
    what its answers mean;
  - `ui.rs`: the choice of toolkit and the command line of each dialog;
  - `secret.rs`: the `secret-tool` command lines and their outcomes;
  - `keys.rs`: the `gpg --with-colons` key listing, the key menu and the
    choice made from it;
  - `cli.rs`: the program's modes;
  - `text.rs`: characters, UTF-8 and decimal numbers.
- `app/` is the program around it: reading and writing gpg-agent's pipe,
  D-Bus (zbus), processes and the terminal. It performs the actions that the
  library's state machines ask for and hands back what happened.
- `tests/` runs the library on concrete inputs.
