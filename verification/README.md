# neonforge

The logic of a small x86_64 text-mode kernel, written in Verus with its
contracts proved.

- `src/` is the verified library:
  - `screen` — the size of the VGA text screen and a write of one cell;
  - `terminal` — the command line: cells, writing place, cursor, typed line,
    prompt; keys, Backspace, wrapping, scrolling, completing a command;
  - `keyboard` — the PS/2 scancode state machine (Shift, held keys, last key);
  - `status`, `decimal` — the date and time on the bottom row;
  - `splash` — the centred boot logo and the loading animation;
  - `commands` — reading and running the commands typed at the prompt;
  - `syscall` — what each `int 0x80` call asks for and what it answers;
  - `rtc` — the clock's binary-coded-decimal fields;
  - `timestamp`, `fault` — the file-system clock and the reaction to a failed
    allocation.
- `app/` is the program around it: video memory, I/O ports, the interrupt
  table, the heap allocator and the main loop.
- `tests/` runs the library on concrete values.
