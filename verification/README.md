# curlish

A terminal client for saving and running HTTP requests, with its logic
verified by Verus.

- `src/` is the verified library: the request model, header suggestions,
  text handling, request preparation, every key handler of the interface
  (as exact state-step relations), the git sync as a step machine, and the
  laws in `src/laws.rs`.
- `app/` is the program around it: the terminal, drawing, reading and
  writing `.curlish.json` and `.curlish-sync.toml`, sending requests with
  reqwest, and running the git commands the sync machine asks for.
- `tests/` exercises the library.
