# octane

The Octane launcher: it installs and updates the Octane player and studio, registers their
`octane-player:` and `octane-studio:` link schemes, starts a client from a launch link, keeps
its windows renamed and its Discord presence shown, and runs a tray that caps the player's frame
rate.

`src/` is the verified library (Verus). It holds the launcher's decisions and computations:

- `config` — install locations, download addresses, the kind a link is for;
- `launcher` — how a command line becomes a launch, the client arguments a link carries, the
  order of the launch pipeline;
- `installer` — when the launcher or a client is out of date, the names of staged and retired
  launchers, the registry values of the link schemes, the site-wide version reset;
- `fps` — the tray's menu, the saved rate and when the tray closes;
- `scan` and `engine` — finding the frame-delay setting in the client's executable image and
  memory, as a state machine that asks its caller for each read and write;
- `rpc` — the watcher processes' command lines and window titles;
- `text`, `decimal`, `wide` — the text handling these rest on.

`app/` is the program around it: the window, downloads, files, the registry, shortcuts, process
memory and the tray's Win32 window. It performs what the library decides. Two small pieces stay
there: the frame-delay bytes and the window's animation, which are floating point, and the
folder the client's storage is created in, which is found with `Path::ancestors`.
