# kivio_core

The rules of a desktop assistant that talks to model providers and to a browser, written and proved
in Verus.

- `src/` is the library. `text` and `json` hold the texts and values that everything is about.
  `endpoint`, `provider`, `request`, `conversation`, `stream_request` and `image` make requests;
  `retry` and `failover` send them again; `reply`, `responses` and the `*_stream` modules read the
  answers; `http`, `tabs` and `bridge` serve a browser. What holds of several functions together is
  stated in proof functions whose names start with `law_`.
- `tests/` runs the library on examples.
- `app/` is the ordinary Rust around it: the HTTP client, the sockets, the files and the window. Its
  module `desktop` needs `tauri`, and with it the system libraries that `tauri` needs.

The library calls `serde_json`, `base64`, `reqwest` (for the text of status codes) and `uuid` through
small functions whose doc comments say what is taken for granted of the call.
