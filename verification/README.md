# supervisorr

A process supervisor. The library (`src/`) holds, verified with Verus:

- `state`: the table of supervised programs, kept in order of name, with
  each program's intent and status;
- `ipc`: the control-socket requests and how each is answered;
- `web`: the dashboard's process list and actions;
- `supervisor`: the decisions of the loop that keeps one program running;
- `client`: the text the command-line client prints for each reply;
- `config`: the configuration, its defaults, and uploaded programs;
- `text`, `names`: decimal and padded text, and the order of names;
- `laws`: properties that relate the operations to one another.

`app/` is the daemon and the command-line client around it: configuration
files, the Unix socket, the HTTP dashboard, spawning and signalling
processes, and the serialised forms of the library's types.
