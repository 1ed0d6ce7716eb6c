# aws-nix-cache

Bridges a user's AWS credentials to the Nix daemon, for binary caches on S3.

The library under `src/` decides; the program under `app/` acts. Each command is a sequence of
steps: a step asks for one thing (`exchange::Request`), and what came of it (`exchange::Reply`)
decides the next step. What is written, printed and sent is made by the library.

- `profile`, `profile_laws`: the profile sections of an AWS config file, and what updates keep
- `setup`, `install`, `serve`, `connection`, `fetch`, `check`, `refresh`: the commands
- `credentials`, `expiry`: credentials, and the forms in which they are handed on
- `calendar`: dates as numbers of seconds and as text, and the order of both
- `paths`, `unit`, `guide`, `text`: paths, the systemd unit, instructions, and text in general

Two outside crates are called from `src/`: chrono, for the text of a time stamp (`expiry`), and
serde_json, for whether bytes are JSON (`fetch`). What is taken on trust of each stands above the
call. Of std, what `String::push` does is taken on trust (`text`).
