# vim-matlab

A server that runs a CLI MATLAB (or Octave) in a pseudo-terminal and takes
commands for it over a Unix socket, one command per line:

- `cancel` sends SIGINT to MATLAB;
- `kill` sends SIGTERM and shuts the server down;
- anything else is sent to MATLAB as code.

`src/` is the library, verified with Verus. It decides; it does no input or
output of its own.

| Module | What it decides |
|---|---|
| `protocol` | which command a line stands for |
| `client` | what is done about each line of a connection |
| `server` | how the socket server starts, goes on and stops |
| `delivery` | which bytes are written next, when writes are partial |
| `pump` | how input and output are forwarded |
| `spawn` | how MATLAB is launched |
| `matlab` | which signals go to which process |
| `supervisor` | what is done before the program ends |
| `config` | the settings and the path of the socket |
| `text`, `log`, `host` | text operations, log lines, constants of the target |

Each loop of the program is a function from what has happened to what is to be
done next, with the transitions as its contract. The public proof functions of
a module state what holds over a whole run.

`app/` is the program around it: arguments, the terminal, processes, sockets and
the asynchronous runtime. It performs the actions and hands back the events.
