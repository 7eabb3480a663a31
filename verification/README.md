# diaryx_storage_gdrive

Google Drive as a storage backend for Diaryx, as an Extism guest plugin. The
plugin exposes operations on Google Drive as commands (`ReadFile`, `WriteFile`,
`ListFiles`, ...), signs in with OAuth, and keeps its tokens as secrets of the host.

`src/` is the plugin's logic, verified with Verus. It performs no I/O: an operation
is a step that is either done or asks the host for one thing and goes on with the
answer. What an operation does is stated as a `Plan`, the tree of its questions and
results for all answers; every step is proved to follow its plan.

| Module | What it holds |
|--------|---------------|
| `text`, `path`, `timestamp`, `encoding`, `json`, `base64_text`, `http` | texts, paths, timestamps, URL and query encoding, JSON, requests and replies |
| `multipart`, `drive_requests`, `drive_replies` | the wire format of the Drive API |
| `plan`, `always` | plans, and what holds on every way through one |
| `drive_plans`, `gdrive_ops`, `trail` | the storage operations |
| `config`, `persistence`, `plugin` | the configuration, and its saving and loading |
| `commands`, `oauth`, `dispatch`, `protocol`, `manifest` | the commands, and their texts on the wire |
| `drive_laws`, `filesystem_laws`, `store_laws`, `command_laws` | what is proved of all of it together |

`app/` is the plugin around it: the exports, serde, and the host functions.
