# gloo

Toolkit pieces for Rust programs in the browser, with their logic verified by
Verus.

- `src/` is the verified library: the in-memory session history with its
  location stack, entry ids and route rules; hash routes; query strings
  (raw and `x-www-form-urlencoded`, the latter through `serde_urlencoded`);
  the animation-frame callback registry; HTTP methods and status classes;
  WebSocket and EventSource states and the WebSocket reading side; event
  listener options; `Intl` format options; file reader states and errors.
  Each public function states what it returns in its contract, and the laws
  that relate several calls are public proof functions beside them.
- `tests/` runs the library on concrete values.
- `app/` binds the library to the browser through `web_sys`, `js_sys` and
  `wasm_bindgen`: the browser and hash histories, event listeners,
  `requestAnimationFrame`, the console, dialogs, blobs and file readers,
  `fetch`, server-sent events and `Intl` formatters.
