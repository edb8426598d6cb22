# tapnow_launcher

The launcher of TapnowStudio: it checks the Tapnow Studio and jimeng-api directories,
builds what is not built, starts jimeng-api, the Python localserver and an embedded static
frontend server, and opens the frontend in a new browser window.

- `src/` is the verified library (Verus):
  - `text.rs`: characters, white space, ASCII case, trimming, decimal text and `u16` parsing
    (with the law that a port written in decimal parses back to itself);
  - `config.rs`: settings from the environment, and the `--serve-frontend` command line;
  - `http.rs`: how the frontend server answers a request (the plan, then the bytes of the
    answer, with the law that a HEAD request, after any blanks that precede its method,
    gets the GET answer without its body, for the request text and for UTF-8 request
    bytes), media types by the extension of the file name (after a drive, share, device or
    verbatim prefix), and the readiness checks of the three services;
  - `commands.rs`: which command, browser (always in a new window) or file the launcher
    uses, and where its files lie;
  - `launcher.rs`: the launch as a state machine from outcome to next action, the steps of
    waiting for a service (with the law that a whole wait succeeds exactly when a check
    made in time answered yes), and their laws;
  - `error.rs`: the errors and their texts.
- `app/` is the program: environment, files, processes, sockets, sleeps and threads. It
  performs the actions that the library asks for, writes the bytes it gives, and hands
  back the outcomes.
- `tests/` runs the library on concrete values.
