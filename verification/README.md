# board

A sound board: a web page of buttons that make a Discord bot play sounds.

- `src/` is the verified library: the store of sounds (`dumpster_base`), the
  button listing (`index`), the commands sent to the bot and the reading of
  its replies (`controls`), the login, guard and hidden-page decisions
  (`login`, `logged_guard`, `nekaj_za_znidarica`), the rules for uploaded
  files (`upload`), the voice monitor's socket decisions and session table
  (`websocket_voice_monitor`, `websocket_voice_monitor_server`), and the
  string helpers they share (`text`).
- `app/` is the actix-web server around it: files, TCP, JSON, templates,
  cookies and websockets.
- `tests/` runs the library on concrete values.
