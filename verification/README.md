# NeoShell

The core of NeoShell, a graphical SSH client: tabs and split panes, a sidebar of
connections, an SFTP browser and editor, transfers, a host monitor, tunnels and
proxies, a command palette, a command history, and a vault that locks itself.

`src/` is the verified library. The app is a state, `state::NeoShell`, and one
step, `updating::update`: it takes a message and what the outside world shows at
that moment (`state::Env`), changes the state, and returns what is to be done
outside (`state::Effect`). Each message has one handler with an exact contract;
the parsers, orders and formats under the handlers stand in modules of their own:

- text, numbers, orders: `text`, `split`, `number`, `order`, `lettercase`,
  `names`, `catalog`
- what is shown: `display`, `titles`, `connections`, `groups`, `palette`,
  `grid`, `paint`, `screens`, `overlays`, `logs`
- what is read from a host: `processes`, `ports`, `monitors`, `remote_files`
- what is kept: `settings`, `history`, `folded`, `forms`, `secrets`
- the handlers: `locking`, `connecting`, `editing`, `signing`, `panes`,
  `draining`, `input`, `pointer`, `finding`, `watching`, `browsing`,
  `transferring`, `sharing`, `keeping`, `windows`
- the app as a whole: `starting`, `updating`, `whole`

What holds across functions is stated in public proof functions whose names
begin with `law_`.

`app/` is what surrounds the library: files, the clipboard, timers, background
work, and what is measured in pixels. What dials, seals and draws is a
`backend::Backend`.
