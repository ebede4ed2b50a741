# arqen

A backend toolkit for building HTTP applications, agent tools and background
jobs, with a command-line tool (`arqen`) that scaffolds, checks and runs
projects.

The decisions of the toolkit are written in Verus and proved against their
contracts; the parts that talk to the operating system, the network or a
terminal are ordinary Rust around them.

## Layout

- `src/` — the verified library:
  - `config`, `oenv` — configuration layering (file, environment, flags),
    validation, and secrets loaded from `oenv`;
  - `error`, `request_log`, `metrics`, `health` — error codes and redaction,
    request logging decisions, request metrics, health aggregation;
  - `auth`, `context` — API keys, JWT and session credentials, claims,
    policies, and the request identity handed to handlers and tools;
  - `json`, `agent` — JSON values, JSON Schema validation of tool input, and
    the registry of agent tools, jobs and endpoints with its manifest;
  - `module`, `openapi`, `jobs`, `scheduler`, `thingd` — module composition,
    the OpenAPI document, the job worker's steps, cron and interval schedules;
  - `schema`, `migration` — `.thingd` schema hashing and the rules of moving an
    embedded store to a Thingd server;
  - `cli`, `generate`, `dev`, `launch`, `tooling` — what the command-line tool
    prints, writes and decides;
  - `text`, `parse`, `counts`, `textmap` — text and number helpers.
- `tests/` — tests of the library.
- `app/` — the `arqen` binary: argument parsing, files and processes, the
  HTTP server (axum), logging (tracing) and the development supervisor.
