# idmnoads

The verified core of a download manager that drives the aria2 engine over
JSON-RPC and takes download captures from browser extensions.

- `src/` — the library, verified with Verus:
  - `framing`: the length-prefixed message framing of native messaging and
    of the local pipe;
  - `json`: a plain model of JSON values;
  - `aria2`: JSON-RPC requests and replies, and the normalized view of a
    download;
  - `settings`, `daemon`, `commands`: user settings, the daemon's command
    line and the options that commands hand to aria2;
  - `ipc`: routing browser requests and building replies;
  - `urls`, `schedule`, `registration`, `window`: link recognition, the
    time-window scheduler, the native-host manifests and small UI decisions;
  - `text`: character-level string operations.
- `app/` — the Tauri application, the HTTP client, the pipe server and the
  native-messaging host around the library.
- `tests/` — tests of the library on concrete values.
