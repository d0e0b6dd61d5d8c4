# chef_de_vibe

A service that runs coding-agent sessions on a host and lets browsers reach them over HTTP
and WebSockets: it lists the sessions recorded in the agent's projects directory, starts or
resumes a session's agent process, relays the agent's output to every connected client,
queues the clients' messages for the agent in order, and passes tool approval requests and
answers between the agent and the approval clients.

## Layout

- `src/` is the verified library (Verus). It holds the logic of the service with its
  contracts:
  - `config` reads and validates the settings and names a working directory's project
    directory;
  - `discovery` scans journal files for sessions, summaries and dates, and looks sessions up;
  - `models` holds the in-memory session state (clients, write queue, pending approvals);
  - `session_manager` holds the session registry and the decisions of session creation, the
    write queue pump, the output handler and the approval handler;
  - `claude_process` builds the agent's command line, compacts messages to one line and reads
    the resumed session's id;
  - `api` builds the HTTP answers and decides what each WebSocket client receives;
  - `json`, `text` and `assoc` are the document, text and association-list helpers;
  - `laws` states and proves the properties that span several operations.
- `tests/` runs the library on concrete values.
- `app/` is the program around the library: the HTTP server, the WebSockets, the agent's
  process, the file system and the environment.

## Settings

`CLAUDE_BINARY_PATH` names the agent's binary; when it is not set, the binary named in
`CLAUDE_BINARY_NAME` is looked up on the `PATH`. `CLAUDE_PROJECTS_DIR` names the projects
directory; when it is not set, `projects` under `CLAUDE_CONFIG_DIR` is used.
`HTTP_LISTEN_ADDRESS` (default `127.0.0.1:3000`) and `SHUTDOWN_TIMEOUT` (seconds, default 30)
work as usual.
