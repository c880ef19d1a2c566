# endif client

The client of a soldier airshot duel: menus, account, matchmaking, rollback bookkeeping, sound and
picture decisions. The decisions are a Verus library; the engine around them is ordinary Rust.

## Layout

- `src/` is the library. Everything in it is verified: each public function states in its contract
  what it returns or changes, and the functions named `law_...` state what holds of several of them
  together.
- `tests/` runs the library on concrete values.
- `app/` is the desktop program: the window, the network, the files, the sound device and everything
  that is floating point. It hands the library plain values and carries out what it decides.

## Modules

| module | what it decides |
| --- | --- |
| `config`, `settings`, `launch`, `fullscreen`, `icon`, `update` | arguments, links, room codes, the settings file, the window, the updater |
| `account`, `json` | requests to the server, what their answers change, queues and reports |
| `net`, `netsim`, `netstats` | lobbies, names, what a session reports, impaired links, input delay |
| `menu`, `textfield`, `copylink`, `theme` | screens, buttons, forms, the match history, links |
| `game`, `render`, `particles`, `player_model`, `viewmodel` | input, shown events, interpolation, particles, animation |
| `hud`, `audio`, `fruit` | the overlay, sounds, the shooting gallery |
| `assets`, `loading`, `warmup` | files, progress at startup, the warm-up |
| `text`, `numeral`, `single`, `clock`, `chance` | strings, exact decimals, single-precision rounding, time, random draws |

## Units

Floating point stays out of the library; where a rounding shows, it is done in whole numbers as single
precision does it. Times are nanoseconds, lengths thousandths of a game unit,
sensitivities hundredths, the volume a percentage, volumes of single sounds millionths.

## What is taken on trust

Calls into other crates stand behind small functions whose contracts are believed rather than proved.
Each says in its doc comment which function it calls and what is claimed of it.
