# js_plugin

A scripting plugin that lets a host engine run a JavaScript file in an
embedded runtime and talk to it. `src/` holds the shared state and the text
the plugin builds, each with a contract proved by Verus:

- `registry`: host functions registered for scripts, and the prelude that
  announces them to the script;
- `events`: callback slots per event type and the queue of events waiting
  for the script;
- `invocation`: the host call a script waits on, and the poll record that
  hands it to the host;
- `log`: the fixed-size log buffer the host drains;
- `console`, `text`, `endian`: console lines, working-copy paths, string
  replacement, decimal rendering, native-order length headers;
- `laws`: properties that relate these operations.

`app/` holds the FFI entry points, the runtime ops, the runtime thread and
the global locks around the library's values.

`deno_error` is a dependency of `app/` only: the ops of `deno_core` 0.413
report their errors as `deno_error::JsErrorBox`.

The script prelude (`prelude.js`) and the runtime bootstrap (`runtime.js`)
are read at run time from the directory of the script that is started.
