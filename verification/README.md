# agentic_robot

The verified core of a two-motor robot driven by an AI agent through a
daemon: the agent captures stereo frames, logs its reasoning and sends drive
commands over a Unix socket; a web dashboard shows frames and history and
offers an emergency stop.

- `src/` — the library, verified with Verus: speeds as IEEE-754 bit patterns
  with the dead zone and speed limit (`speed`, `motor`), the history stores
  and their retention rule (`history`), the order of entry directories
  (`listing`), camera pipelines and the mock camera
  (`camera`), the socket protocol (`ipc`), the daemon's command steps and
  status (`daemon`), the watchdog's decisions (`safety`), the dashboard's
  replies (`server`), the client's reading of replies (`cli`), configuration
  (`config`), errors (`error`), decimal text (`text`) and instants (`time`).
- `app/` — the program around it: command line, socket, web server, files,
  the motor board through `robot-control`, and the timer loops.
- `tests/` — tests of the library.
