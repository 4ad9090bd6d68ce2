# vm_rust

The decision-making core of a Director (Lingo) movie player, written in Verus
with its behaviour stated as `requires` / `ensures` contracts and proved.

`src/` is the verified library:

- `datum`, `datum_ref`, `allocator`: Lingo values, references to them and the
  store that holds them.
- `compare`, `datum_operations`, `datum_formatting`, `text`: equality and order
  of values, arithmetic and concatenation, how values print.
- `scope`, `handler`, `context_vars`, `compiled`: handler frames, bytecode,
  variable references, and the compiled fast path for pure handlers with its
  small-step semantics.
- `events`, `message_chain`, `sprite_events`, `commands`, `eval`: events posted
  to the event loop, the message hierarchy (behaviors, then frame and movie
  scripts), which sprites an event reaches, pointer and timer commands, and the
  names a `do` or debugger expression resolves.
- `lingo_eval`: the run-time evaluator of parsed Lingo expressions, a machine
  that asks the player what only it can answer (handler calls, properties,
  names, stores) and is handed the answers.
- `cast_member`, `member_def`, `xmed_text`, `ole`, `export`, `cast_export`,
  `script_text`: cast members and how they are built from what the cast
  holds, the font and box of styled-text members, recognizing Xtra members
  from their data, and exporting a cast as YAML descriptions, script sources
  and media files (PNG images through the `image` crate).
- `console`, `debug`: the message console and the breakpoint list.

Laws that relate several operations are public proof functions named
`lemma_*` beside the functions they speak of.

`app/` holds what runs around the library and is not verified: posting events
on an `async-std` channel, driving the message hierarchy, behavior dispatch
and expression evaluation with the player's calls, writing a cast export
to disk, and shared access to the console and breakpoints.
