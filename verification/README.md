# scratchbar

A bar for Wayland desktops that is drawn by terminals. A host runs a bar and a menu on
every monitor, each in a terminal of its own. A controller tells the host what to show
and hears what the user does with it.

- `src/` is the library: which monitors there are, what each bar shows, where a menu
  goes and when it opens and closes, how text and pictures are put into escape
  sequences, the messages between the processes, and the modules that fill a bar
  (workspaces, tray, sound, battery, power profiles, clock and calendar). It is verified
  with Verus, apart from the calls into other crates and into std that it makes: each of
  these stands in a small function whose contract is trusted, and whose comment says what
  it claims.
- `tests/` runs the library on concrete values.
- `app/` holds the programs around it: sockets, terminals, the connections to the
  desktop, and the drawing of elements.

Public proof functions whose names begin with `law_` state what holds of several
functions together.

Floating-point numbers stay outside the library, which sees them as their bits at most:
scaled margins, percentages and rates are computed in `app/`.
