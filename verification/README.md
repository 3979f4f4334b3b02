# ssh-control

A local, encrypted SSH connection manager with a terminal UI. Servers,
credentials and scripts live in one AES-256-GCM encrypted file on your own
machine.

## Layout

- `src/` is the library: everything the program decides, verified with Verus.
  - `config/` the vault: its file format, key slots, device state, migration of
    its schema, and the data it holds.
  - `crypto/`, `totp.rs` key derivation, sealing, and one-time codes.
  - `ssh/` what is decided about a connection: bastion chains, host keys,
    authentication, scripts, SFTP packets, transfers, SOCKS and forwards.
  - `app/` the application as a state machine: keys to steps, steps to state and
    effects, lock screens, and the flows around a live connection.
  - `cli/`, `session.rs`, `ssh_config.rs` the command line's output, what a
    session leaves in the vault, and the ssh config import.
- `app/` is the program around it: the terminal, the disk, the credential store
  and the network. It carries out the effects that the library returns and hands
  the outcomes back.
- `tests/` runs the library from outside.

## Keys

| Screen | Keys |
|---|---|
| Server list | `Enter` connect, `/` search, `a` add, `e` edit, `d` delete, `s` scripts, `f` files, `p` forwards, `i` import, `o` order, `l` lock, `F1` settings, `q` quit |
| Forms | `Tab` next field, `Ctrl+Enter` save, `Esc` cancel |
| Anywhere | `F2` keybindings |

`ssh-control list` prints the servers and `ssh-control connect <name>` connects
to one. `--config PATH` names another vault.

## Security modes

| Mode | Asked at startup |
|---|---|
| No prompt | nothing: a key in the OS credential store opens the vault |
| Password | the password |
| Password + code | the password, then a one-time code; the password again where a code is reused |
| Code only | a one-time code; the password after five wrong codes, a reused code, or thirty days |
