# patch-data

A tool that patches one variable in each of a list of Terraform Enterprise
workspaces. For every workspace in `work_spaces.yaml` it looks up the id of
the variable named there, saves the workspace-to-id map to `map.json`, and
sends a patch that sets the variable to the value from the file. Failed
requests are retried with exponential backoff.

- `src/` is the verified library (Verus): request URLs and JSON payloads,
  reading the variable id out of a listing, the patch list, retry decisions,
  and the digest work of the worker-pool demo.
- `app/` is the program around it: HTTP with `reqwest`, the YAML files, the
  shared maps and the concurrency with `tokio` and `futures`.
- `tests/` runs the library on concrete values.
