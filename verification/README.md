# mini-tmux

A small terminal multiplexer whose rules are verified with Verus.

```
mini-tmux new -s work            make a session and attach to it
mini-tmux attach -s work         attach to a session that is there
mini-tmux ls                     list the running sessions
mini-tmux kill-session -s work   end a session
```

In a session, `Ctrl-b d` detaches and leaves the shell running, and
`Ctrl-b Ctrl-b` sends one `Ctrl-b`. Everything else goes to the shell.
`kill-session` terminates the server, which hangs up the shell's terminal. It
cannot be used while another terminal is attached to the session.

- `src/` is the library. Each module decides from plain values; none touches a
  file descriptor. `protocol` and `stream` hold the wire format, `keys` the
  prefix key, `client`, `server`, `launch` and `kill` the state machines of the
  program, `pty` and `daemon` the order of the system calls that start a shell
  and a daemon, `session`, `cli` and `text` names and messages. What holds over
  whole runs is proved in `client_laws`, `server_laws` and `session_laws`.
- `app/` is the program. It performs the actions that the library names and
  hands back what came of them.
- `tests/` runs the library on concrete values.
