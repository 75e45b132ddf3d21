# herdr_gui

The verified core of a small desktop client for the Herdr terminal
multiplexer server: the data model of the server's workspaces, tabs, panes
and agents, and every decision the client makes about them, proved with
Verus.

- `src/` is the library. Each module states its behaviour in `requires` /
  `ensures` contracts over mathematical models, and the laws that relate
  several functions are public proof functions named `law_*`.
  - `herdr`: the server's data model, focus resolution, replies, socket path, requests.
  - `bootstrap`: start-up as a state machine (install, start, wait, ping).
  - `shell`: what the window shows: active items, visible tabs and panes,
    tab titles, agent rows, which workspace to close.
  - `ghostty`: terminal frames built from emulator cells, line trimming,
    colours, and where libghostty-vt is found.
  - `viewer`: which session to attach and the pacing of frame extraction.
  - `detail`: the branch shown under a workspace, with its cache.
  - `theme`, `settings`, `input`, `agent`, `paths`, `text`: themes,
    saved settings, keystrokes, the agent chat panel, path and text helpers.
- `tests/` runs the library on concrete values.
- `app/` is the window itself: GPUI rendering, the Unix socket, the
  pseudo-terminal and libghostty-vt calls, the ACP agent thread.
