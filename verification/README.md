# dev-dashboard

A terminal dashboard for development projects: it reads a list of projects from a configuration
file, starts and stops them as child processes or as daemons, follows what they write, and lists
the development processes of the system. Closing the dashboard stops the child processes; daemons
go on, and are found again when it is opened the next time.

The library under `src/` holds the rules, each with a contract that Verus proves:

- `text`: trimming, splitting and joining text, and decimal numbers.
- `config`: the configuration file, read and written.
- `project`: projects, their status, and what is remembered of a daemon.
- `dashboard`: the state of the dashboard and what every event and key does to it.
- `termination`: how a child process is killed and waited for.
- `output`: the last lines that a process has written.
- `processes`: which processes of the system are listed, and in which order.
- `clock`: points in time and how long a process has been up.
- `paths`: where the configuration and the daemon files are.
- `layout`: how the screen is divided.
- `screen`: what the screen shows.
- `session`: what holds after any run of events.
- `laws`: what holds of several operations together.

The program under `app/` does the rest: the terminal, files, processes and threads. CPU usage is a
floating-point number and is handled there; the library gets it as text and as a rank.

The library relies on `chrono` for the time, `dirs` for the directory of the configuration,
`ratatui` for dividing the screen and `sysinfo` for how a process number is written. Each such call
stands behind a small function whose comment says what is taken for granted.
