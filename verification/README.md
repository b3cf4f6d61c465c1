# sftp

SFTP version 3 on top of an SSH channel or a socket to an SFTP server: the wire
format, client sessions, and the logic of an interactive shell. There is no SSH
implementation here; a command-line client running `ssh -s host sftp` will do.

The library in `src/` is verified with Verus. It performs no I/O:

- `wire`, `attributes`, `protocol`, `reply`: the codec. Requests are built as
  bytes, replies are taken apart, and what was encoded is proved to be read back
  (`attribute_laws`, `reply_laws`). Of attributes this holds where owner and
  group, and the two words of attribute bits, go together and no allocation size
  stands beside numeric ids. What was cut short is refused (`prefix_laws`).
- `sync`: a client session. Each request comes out as the packet to send and a
  call that makes sense of the reply.
- `async_client`: a session with any number of requests under way. Replies find
  those who wait for them by request id, and nobody waits on a lost connection.
- `command`, `path`, `stage`, `steps`, `shell`, `listing`: the shell. A command runs in
  steps, from what came of the last action to the next action (`shell_laws`).
- `error`, `types`, `text`, `constants`: what the others share.

`app/` is the program around it: channels, files, the terminal, and clients for
blocking and asynchronous transports.
