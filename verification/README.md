# mi_thermald

A userspace thermal daemon for Android devices, with a Q-learning layer that adapts
processor and GPU frequencies, charge current and display to temperature and workload.
The decisions are made by a library that is verified with Verus; a thin program around
it reads and writes the device nodes.

## Layout

- `src/` is the verified library.
  - `config`, `decrypt`, `resolve`: the vendor's configuration files, from encrypted bytes
    to controller instances.
  - `sensor`, `algorithm`, `action`: sensors, threshold and PID evaluation, and the node
    writes that an action stands for.
  - `engine`: one tick of the daemon in each of its modes.
  - `ai`: state features, workload, tile coding, Q-tables, rewards, the safety monitor, the
    engine that augments a configuration and the controller that works without one.
  - `web`: the state that the status page shows.
  - `text`, `arith`, `types`, `thermal_profile`: what the others share.
- `app/` is the program: threads, timers, signals, files, the log and the web server.
- `tests/` runs the library on concrete values.

## Conventions

The library never reads the device. A function takes readings as plain values and returns
what is to be written; the program carries the writes out and reports back which succeeded.

Shares and features are integers in millionths, rewards and weights in billionths,
temperatures in thousandths or tenths of a degree as their node gives them. Random draws
enter through one function per draw, and the functions that use them also exist in a form
that takes the drawn value.

Public proof functions named `law_..` state what holds across functions.
