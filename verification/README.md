# ferry

Ferry keeps a local directory tree and a directory on an FTP server in step. It
hashes what is on the two sides, compares that with what it remembers of the last
transfer, and uploads, downloads or reports a conflict.

The decisions are a verified library. It does no input or output: a run of a command
is a value that says what it waits for, takes the answer, and says what it waits for
next. What each answer leads to is stated and proved with Verus.

- `src/` is the library.
  - `text`, `paths`, `local_paths`, `platform`, `order`, `error`: text, remote and local
    paths, how a machine writes them, maps that are ordered by path, and failures with
    their exit codes.
  - `ftp`, `listing`, `walk`, `targets`, `gather`, `ls`: what a server says, walks of the
    two trees, and the paths that a command works on.
  - `hash`, `remote_hash`, `state`: content by its hash, and what is remembered.
  - `file_transfer`, `transfer_temp`, `upload`, `download`: transfers that are staged
    beside their destination and take its place only while both ends are what they
    were.
  - `commands`, `push`, `cli`, `extension`: the commands.
  - `sync/`: the synchronisation of a scope, from its inventory to the check of its
    directories, and the picker.
- `app/` reads and writes files, talks to the server and the terminal, and answers the
  library.
- `tests/` runs the library against a file system and a server in memory.

What holds of every run stands as public proof functions beside the code it is about:
that nothing leaves the roots, that no remote symlink is followed, that nothing is
overwritten that was not forced, that a dry run asks for no change, that a transfer
takes the place of its destination only after every confirmation, that one that is
committed has taken that place, that every file of a scope is reported exactly once and
nothing at or below a type conflict at all, that every directory of it ends on both
sides, and that a dry run reports what a real run reports.
