# remote_transfer

Transfers files between this machine and a server with rsync, between two servers by way of a
temporary directory, or on one server with `mv` and `cp`, and reports the progress. Files that are
cut are deleted at their source once all of them have arrived.

What is decided is written and proved in Verus; what is done is ordinary Rust around it.

## The library (`src/`)

A transfer is a `Session`. It hands out `Action`s (send a message, start rsync, read a byte of its
output, run a command on a server, ...) and takes an `Answer` to the last of them, until it is over.
The session is made of smaller machines of the same kind.

- `transfer`: the whole transfer. `rsync`, `same_server` and `delete` are its parts.
- `ssh`: how a connection is made and a command run on it.
- `watchdog`: when a running program is ended.
- `askpass`: the script that tells `ssh` a password where `sshpass` is not installed.
- `command`, `profile`, `shell`: the commands and their quoting.
- `progress`, `text`: what rsync prints, and the string operations to read it.
- `action`, `message`: what the machines and their surroundings exchange.

What holds of every run of a transfer is stated in proof functions whose names begin with `law_`:

- `protocol`: one question at a time, and any answer to it.
- `story`: the end is told once, and what it says is true.
- `verdict`: what the last message says, by all that happened.
- `removal`: only sources that have arrived are deleted, those that are moved are, and how.
- `order`: the files are taken in the given order, and with which commands.
- `reports`: the progress that is told is the progress that rsync shows.
- `cancellation`: what a cancellation does.
- `cleanup`: nothing that was made on the way is left behind.

Laws on single functions stand beside them: what a shell reads in a quoted path, what a progress
line means, what came of a remote command, that no half-made password script stays on disk.

## Around it (`app/`)

`app/` starts the programs, opens the connections through russh, and deletes the files: it performs
the actions and hands back the answers.

## Tests

`tests/` runs the library on concrete values, whole transfers among them.
